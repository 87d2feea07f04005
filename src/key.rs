use vstd::prelude::*;

verus! {

/// The lowercase hexadecimal SHA-1 digest of the UTF-8 encoding of `s`.
pub uninterp spec fn sha1_hex(s: Seq<char>) -> Seq<char>;

pub open spec fn is_lower_hex_digit(c: char) -> bool {
    ('0' <= c && c <= '9') || ('a' <= c && c <= 'f')
}

/// Forty lowercase hexadecimal digits: the shape of every file key.
pub open spec fn is_key_text(s: Seq<char>) -> bool {
    &&& s.len() == 40
    &&& forall|i: int| 0 <= i < s.len() ==> is_lower_hex_digit(#[trigger] s[i])
}

/// The key of the file whose original path is `path`: it names both the
/// escrowed blob and the relocated file.
pub open spec fn file_key_spec(path: Seq<char>) -> Seq<char> {
    sha1_hex(path)
}

/// `name` placed inside the directory `dir`, with one separator between them.
pub open spec fn join_spec(dir: Seq<char>, name: Seq<char>) -> Seq<char> {
    if dir.len() == 0 || dir.last() == '/' {
        dir + name
    } else {
        dir + seq!['/'] + name
    }
}

/// Longest path, in characters, that can be keyed: the digest counts the bits
/// of its input in 64 bits, and a character takes at most four bytes.
pub const MAX_KEYED_PATH_LEN: u64 = 0x0100_0000_0000_0000;

/// Relies on rust-crypto's `Sha1` with `Digest::input_str` and
/// `Digest::result_str`: the digest has 160 bits, written as two lowercase hex
/// digits per byte, and depends on the characters of the input alone.
/// `input` panics only when the input's bit count overflows 64 bits.
#[verifier::external_body]
fn sha1_hex_of(s: &str) -> (r: String)
    requires
        s@.len() <= MAX_KEYED_PATH_LEN,
    ensures
        r@ == sha1_hex(s@),
        is_key_text(r@),
{
    let mut hasher = crypto::sha1::Sha1::new();
    crypto::digest::Digest::input_str(&mut hasher, s);
    crypto::digest::Digest::result_str(&mut hasher)
}

/// The key of the file at `path`.
pub fn file_key(path: &str) -> (k: String)
    requires
        path@.len() <= MAX_KEYED_PATH_LEN,
    ensures
        k@ == file_key_spec(path@),
        is_key_text(k@),
{
    sha1_hex_of(path)
}

/// The path of `name` inside the directory `dir`.
pub fn join_path(dir: &str, name: &str) -> (r: String)
    ensures
        r@ == join_spec(dir@, name@),
{
    proof {
        reveal_strlit("/");
    }
    let n = dir.unicode_len();
    let base = String::from_str(dir);
    if n == 0 || dir.get_char(n - 1) == '/' {
        base.concat(name)
    } else {
        base.concat("/").concat(name)
    }
}

/// A key depends on nothing but the path string: equal path strings give
/// equal keys, so escrow and relocation agree on every call for a path.
pub proof fn lemma_key_determinism(p: Seq<char>, q: Seq<char>)
    requires
        p == q,
    ensures
        file_key_spec(p) == file_key_spec(q),
        join_spec(p, file_key_spec(p)) == join_spec(q, file_key_spec(q)),
{
}

} // verus!
