//! File fingerprints: a relative path and a content hash joined by `#`.

use vstd::prelude::*;
use vstd::string::*;

verus! {

/// The character that separates the path from the hash.
pub open spec fn separator() -> char {
    '#'
}

/// 16 to the power `k`.
pub open spec fn pow16(k: nat) -> nat
    decreases k,
{
    if k == 0 {
        1
    } else {
        16 * pow16((k - 1) as nat)
    }
}

/// Every power of 16 is positive.
pub proof fn lemma_pow16_positive(k: nat)
    ensures
        pow16(k) > 0,
    decreases k,
{
    if k > 0 {
        lemma_pow16_positive((k - 1) as nat);
    }
}

/// The lowercase hexadecimal digit for a value below 16.
pub open spec fn hex_digit(n: nat) -> char {
    if n == 0 {
        '0'
    } else if n == 1 {
        '1'
    } else if n == 2 {
        '2'
    } else if n == 3 {
        '3'
    } else if n == 4 {
        '4'
    } else if n == 5 {
        '5'
    } else if n == 6 {
        '6'
    } else if n == 7 {
        '7'
    } else if n == 8 {
        '8'
    } else if n == 9 {
        '9'
    } else if n == 10 {
        'a'
    } else if n == 11 {
        'b'
    } else if n == 12 {
        'c'
    } else if n == 13 {
        'd'
    } else if n == 14 {
        'e'
    } else {
        'f'
    }
}

/// A 64-bit value written as exactly sixteen lowercase hexadecimal digits,
/// most significant first.
pub open spec fn hex16(value: u64) -> Seq<char> {
    Seq::new(16, |i: int| hex_digit(((value as nat) / pow16((15 - i) as nat)) % 16))
}

/// Whether `text` has its one and only separator at position `k`.
pub open spec fn splits_at(text: Seq<char>, k: int) -> bool {
    &&& 0 <= k < text.len()
    &&& text[k] == separator()
    &&& forall|j: int| 0 <= j < text.len() && j != k ==> text[j] != separator()
}

/// A fingerprint is well formed when it holds exactly one separator.
pub open spec fn well_formed(text: Seq<char>) -> bool {
    exists|k: int| splits_at(text, k)
}

/// The position of the separator in a well-formed fingerprint.
pub open spec fn separator_index(text: Seq<char>) -> int {
    choose|k: int| splits_at(text, k)
}

/// What stands before the separator: the file's relative path.
pub open spec fn path_part(text: Seq<char>) -> Seq<char> {
    text.subrange(0, separator_index(text))
}

/// What stands after the separator: the rendered hash.
pub open spec fn hash_part(text: Seq<char>) -> Seq<char> {
    text.subrange(separator_index(text) + 1, text.len() as int)
}

/// The fingerprint of a path and a 64-bit hash: path, separator, sixteen
/// hexadecimal digits.
pub open spec fn fingerprint_text(path: Seq<char>, hash: u64) -> Seq<char> {
    path + seq![separator()] + hex16(hash)
}

/// The SeaHash digest of a byte sequence, with the default seed.
pub uninterp spec fn seahash64(bytes: Seq<u8>) -> u64;

/// The fingerprint of a file: its path and the digest of its contents.
pub open spec fn fingerprint_of(path: Seq<char>, contents: Seq<u8>) -> Seq<char> {
    fingerprint_text(path, seahash64(contents))
}

/// A rendered hash never holds the separator.
pub proof fn lemma_hex16_has_no_separator(value: u64)
    ensures
        hex16(value).len() == 16,
        !hex16(value).contains(separator()),
{
    assert forall|i: int| 0 <= i < hex16(value).len() implies hex16(value)[i] != separator() by {}
}

/// In a well-formed fingerprint, any position that holds the separator is
/// the separator's position.
pub proof fn lemma_separator_unique(text: Seq<char>, k: int)
    requires
        well_formed(text),
        0 <= k < text.len(),
        text[k] == separator(),
    ensures
        splits_at(text, k),
        separator_index(text) == k,
{
    let w = choose|w: int| splits_at(text, w);
    assert(w == k);
}

/// Splitting a fingerprint gives back the path and the rendered hash it was
/// made of, for every path without a separator.
pub proof fn lemma_split_fingerprint_text(path: Seq<char>, hash: u64)
    requires
        !path.contains(separator()),
    ensures
        well_formed(fingerprint_text(path, hash)),
        path_part(fingerprint_text(path, hash)) == path,
        hash_part(fingerprint_text(path, hash)) == hex16(hash),
{
    let text = fingerprint_text(path, hash);
    let k = path.len() as int;
    lemma_hex16_has_no_separator(hash);
    assert(text.len() == k + 17);
    assert(text[k] == separator());
    assert forall|j: int| 0 <= j < text.len() && j != k implies text[j] != separator() by {
        if j < k {
            assert(text[j] == path[j]);
            assert(path.contains(path[j]));
        } else {
            assert(text[j] == hex16(hash)[j - k - 1]);
            assert(hex16(hash).contains(hex16(hash)[j - k - 1]));
        }
    }
    assert(splits_at(text, k));
    lemma_separator_unique(text, k);
    assert(path_part(text) =~= path);
    assert(hash_part(text) =~= hex16(hash));
}

/// Fingerprint round trip: splitting the fingerprint of a file gives its
/// path and the sixteen hexadecimal digits of the digest of its contents.
pub proof fn lemma_fingerprint_round_trip(path: Seq<char>, contents: Seq<u8>)
    requires
        !path.contains(separator()),
    ensures
        well_formed(fingerprint_of(path, contents)),
        path_part(fingerprint_of(path, contents)) == path,
        hash_part(fingerprint_of(path, contents)) == hex16(seahash64(contents)),
{
    lemma_split_fingerprint_text(path, seahash64(contents));
}

/// One hexadecimal digit as text.
fn hex_digit_text(n: u64) -> (text: &'static str)
    requires
        n < 16,
    ensures
        text@ == seq![hex_digit(n as nat)],
{
    proof {
        reveal_strlit("0");
        reveal_strlit("1");
        reveal_strlit("2");
        reveal_strlit("3");
        reveal_strlit("4");
        reveal_strlit("5");
        reveal_strlit("6");
        reveal_strlit("7");
        reveal_strlit("8");
        reveal_strlit("9");
        reveal_strlit("a");
        reveal_strlit("b");
        reveal_strlit("c");
        reveal_strlit("d");
        reveal_strlit("e");
        reveal_strlit("f");
    }
    let text = if n == 0 {
        "0"
    } else if n == 1 {
        "1"
    } else if n == 2 {
        "2"
    } else if n == 3 {
        "3"
    } else if n == 4 {
        "4"
    } else if n == 5 {
        "5"
    } else if n == 6 {
        "6"
    } else if n == 7 {
        "7"
    } else if n == 8 {
        "8"
    } else if n == 9 {
        "9"
    } else if n == 10 {
        "a"
    } else if n == 11 {
        "b"
    } else if n == 12 {
        "c"
    } else if n == 13 {
        "d"
    } else if n == 14 {
        "e"
    } else {
        "f"
    };
    assert(text@ =~= seq![hex_digit(n as nat)]);
    text
}

/// Appends the sixteen hexadecimal digits of `value` to `out`.
fn append_hex16(out: &mut String, value: u64)
    ensures
        final(out)@ == old(out)@ + hex16(value),
{
    let mut place: u64 = 0x1000_0000_0000_0000;
    let mut i: usize = 0;
    assert(pow16(15) == 0x1000_0000_0000_0000) by {
        reveal_with_fuel(pow16, 16);
    }
    while i < 16
        invariant
            i <= 16,
            i < 16 ==> place == pow16((15 - i) as nat),
            out@ == old(out)@ + hex16(value).subrange(0, i as int),
        decreases 16 - i,
    {
        proof {
            lemma_pow16_positive((15 - i) as nat);
        }
        let digit: u64 = (value / place) % 16;
        let text = hex_digit_text(digit);
        out.append(text);
        assert(out@ == old(out)@ + hex16(value).subrange(0, i + 1)) by {
            assert(hex16(value).subrange(0, i + 1) =~= hex16(value).subrange(0, i as int).push(
                hex16(value)[i as int],
            ));
        }
        proof {
            if i < 15 {
                lemma_pow16_positive((14 - i) as nat);
                assert(pow16((15 - i) as nat) == 16 * pow16((14 - i) as nat));
            }
        }
        place = place / 16;
        i = i + 1;
    }
    assert(hex16(value).subrange(0, 16) =~= hex16(value));
}

/// Calls `seahash::hash`: the digest of `contents` under SeaHash's default
/// seed. The digest is a function of the bytes alone; nothing more is
/// claimed of it.
#[verifier::external_body]
fn content_hash(contents: &[u8]) -> (digest: u64)
    ensures
        digest == seahash64(contents@),
{
    seahash::hash(contents)
}

/// Whether `text` holds the separator anywhere.
fn has_separator(text: &str) -> (found: bool)
    ensures
        found == text@.contains(separator()),
{
    let n = text.unicode_len();
    let mut i: usize = 0;
    while i < n
        invariant
            i <= n,
            n == text@.len(),
            forall|j: int| 0 <= j < i ==> text@[j] != separator(),
        decreases n - i,
    {
        if text.get_char(i) == '#' {
            return true;
        }
        i = i + 1;
    }
    false
}

/// The identifier of a stored file: `"<path>#<hash>"`.
///
/// Any string can be held; only a well-formed one can be split.
#[derive(Debug, Hash)]
pub struct PathAndHash(String);

impl View for PathAndHash {
    type V = Seq<char>;

    closed spec fn view(&self) -> Seq<char> {
        self.0@
    }
}

impl Clone for PathAndHash {
    fn clone(&self) -> (copy: PathAndHash)
        ensures
            copy == *self,
    {
        PathAndHash(self.0.clone())
    }
}

impl PartialEq for PathAndHash {
    fn eq(&self, other: &PathAndHash) -> (equal: bool) {
        self.0 == other.0
    }
}

impl Eq for PathAndHash {

}

impl vstd::std_specs::cmp::PartialEqSpecImpl for PathAndHash {
    open spec fn obeys_eq_spec() -> bool {
        true
    }

    open spec fn eq_spec(&self, other: &PathAndHash) -> bool {
        self@ == other@
    }
}

/// The texts of a list of fingerprints, in order.
pub open spec fn texts(list: Seq<PathAndHash>) -> Seq<Seq<char>> {
    list.map_values(|fingerprint: PathAndHash| fingerprint@)
}

/// Whether every fingerprint of a list is well formed.
pub open spec fn all_well_formed(files: Seq<Seq<char>>) -> bool {
    forall|i: int| 0 <= i < files.len() ==> well_formed(#[trigger] files[i])
}

impl PathAndHash {
    /// Holds `text` as a fingerprint, as it came from the wire or the store.
    pub fn new(text: String) -> (fingerprint: PathAndHash)
        ensures
            fingerprint@ == text@,
    {
        PathAndHash(text)
    }

    /// The fingerprint as text.
    pub fn as_str(&self) -> (text: &str)
        ensures
            text@ == self@,
    {
        self.0.as_str()
    }

    /// The fingerprint as an owned string.
    pub fn into_string(self) -> (text: String)
        ensures
            text@ == self@,
    {
        self.0
    }

    /// The fingerprint of `path` and an already computed `hash`. A path that
    /// holds the separator has no fingerprint.
    pub fn from_path_and_hash(path: &str, hash: u64) -> (made: Option<PathAndHash>)
        ensures
            made is Some <==> !path@.contains(separator()),
            made matches Some(fingerprint) ==> fingerprint@ == fingerprint_text(path@, hash),
    {
        if has_separator(path) {
            return None;
        }
        let mut text = String::from_str(path);
        proof {
            reveal_strlit("#");
        }
        text.append("#");
        append_hex16(&mut text, hash);
        assert(text@ =~= fingerprint_text(path@, hash));
        Some(PathAndHash(text))
    }

    /// The fingerprint of the file at `path` whose bytes are `contents`. A
    /// path that holds the separator has no fingerprint.
    pub fn from_path(path: &str, contents: &[u8]) -> (made: Option<PathAndHash>)
        ensures
            made is Some <==> !path@.contains(separator()),
            made matches Some(fingerprint) ==> fingerprint@ == fingerprint_of(path@, contents@),
    {
        PathAndHash::from_path_and_hash(path, content_hash(contents))
    }

    /// Whether the fingerprint holds exactly one separator.
    pub fn is_well_formed(&self) -> (ok: bool)
        ensures
            ok == well_formed(self@),
    {
        let text = self.0.as_str();
        let n = text.unicode_len();
        let mut first: Option<usize> = None;
        let mut i: usize = 0;
        while i < n
            invariant
                i <= n,
                n == text@.len(),
                text@ == self@,
                first is None ==> forall|j: int| 0 <= j < i ==> text@[j] != separator(),
                first matches Some(k) ==> k < i && text@[k as int] == separator() && forall|j: int|
                    0 <= j < i && j != k ==> text@[j] != separator(),
            decreases n - i,
        {
            if text.get_char(i) == '#' {
                if first.is_some() {
                    proof {
                        let k = first->0 as int;
                        assert forall|w: int| !splits_at(text@, w) by {
                            if splits_at(text@, w) {
                                if w == k {
                                    assert(text@[i as int] != separator());
                                } else {
                                    assert(text@[k] != separator());
                                }
                            }
                        }
                    }
                    return false;
                }
                first = Some(i);
            }
            i = i + 1;
        }
        match first {
            Some(k) => {
                assert(splits_at(text@, k as int));
                true
            },
            None => {
                assert forall|w: int| !splits_at(text@, w) by {}
                false
            },
        }
    }

    /// The path and the rendered hash of a well-formed fingerprint.
    pub fn parts(&self) -> (parts: (&str, &str))
        requires
            well_formed(self@),
        ensures
            parts.0@ == path_part(self@),
            parts.1@ == hash_part(self@),
    {
        let text = self.0.as_str();
        let n = text.unicode_len();
        let mut i: usize = 0;
        while i < n && text.get_char(i) != '#'
            invariant
                i <= n,
                n == text@.len(),
                forall|j: int| 0 <= j < i ==> text@[j] != separator(),
            decreases n - i,
        {
            i = i + 1;
        }
        proof {
            let k = separator_index(text@);
            assert(splits_at(text@, k));
            assert(i <= k);
            lemma_separator_unique(text@, i as int);
        }
        (text.substring_char(0, i), text.substring_char(i + 1, n))
    }

    /// The relative path of a well-formed fingerprint.
    pub fn path(&self) -> (path: &str)
        requires
            well_formed(self@),
        ensures
            path@ == path_part(self@),
    {
        self.parts().0
    }

    /// The rendered hash of a well-formed fingerprint.
    pub fn hash(&self) -> (hash: &str)
        requires
            well_formed(self@),
        ensures
            hash@ == hash_part(self@),
    {
        self.parts().1
    }
}

/// Whether every fingerprint of `files` is well formed.
pub fn are_well_formed(files: &Vec<PathAndHash>) -> (ok: bool)
    ensures
        ok == all_well_formed(texts(files@)),
{
    let mut i: usize = 0;
    while i < files.len()
        invariant
            i <= files.len(),
            forall|j: int| 0 <= j < i ==> well_formed(#[trigger] texts(files@)[j]),
        decreases files.len() - i,
    {
        if !files[i].is_well_formed() {
            assert(!well_formed(texts(files@)[i as int]));
            return false;
        }
        i = i + 1;
    }
    true
}

} // verus!
