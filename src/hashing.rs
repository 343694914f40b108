//! Hashing a list of quoted strings the way Cairo hashes `ByteArray` values.
use vstd::prelude::*;

use cainome::cairo_serde::{ByteArray, CairoSerde};
use starknet_crypto::Felt;
use crate::parsers::strings;
use vstd::utf8::encode_utf8;

verus! {

/// Whether a character has the Unicode `White_Space` property, as `char::is_whitespace`
/// checks: tab to carriage return, space, next line, no-break space, ogham space mark, the
/// spaces from en quad to hair space, line and paragraph separators, narrow no-break space,
/// medium mathematical space and ideographic space.
pub open spec fn white_space(c: char) -> bool {
    ||| '\u{9}' <= c <= '\u{d}'
    ||| c == ' '
    ||| c == '\u{85}'
    ||| c == '\u{a0}'
    ||| c == '\u{1680}'
    ||| '\u{2000}' <= c <= '\u{200a}'
    ||| c == '\u{2028}'
    ||| c == '\u{2029}'
    ||| c == '\u{202f}'
    ||| c == '\u{205f}'
    ||| c == '\u{3000}'
}

/// The Cairo serialization of a string as a `ByteArray`, each word in big-endian bytes.
pub uninterp spec fn byte_array_words(s: Seq<char>) -> Seq<Seq<u8>>;

/// The Poseidon hash of a list of field elements, in big-endian bytes.
pub uninterp spec fn poseidon_of(words: Seq<Seq<u8>>) -> Seq<u8>;

/// The `Debug` text of a field element given in big-endian bytes.
pub uninterp spec fn felt_text_of(word: Seq<u8>) -> Seq<char>;

/// Whether a character is whitespace.
pub fn is_whitespace(c: char) -> (r: bool)
    ensures
        r == white_space(c),
{
    ('\u{9}' <= c && c <= '\u{d}') || c == ' ' || c == '\u{85}' || c == '\u{a0}' || c
        == '\u{1680}' || ('\u{2000}' <= c && c <= '\u{200a}') || c == '\u{2028}' || c
        == '\u{2029}' || c == '\u{202f}' || c == '\u{205f}' || c == '\u{3000}'
}

/// The byte sequences of a list of words.
pub open spec fn words_view(w: Seq<[u8; 32]>) -> Seq<Seq<u8>> {
    w.map_values(|x: [u8; 32]| x@)
}

/// Relies on cainome's `ByteArray::from_string` and `CairoSerde::cairo_serialize` of
/// `ByteArray`: the words that serialize the string. `from_string` cuts the bytes into
/// 31-byte chunks, each of which `Bytes31::new` accepts, so it does not fail.
#[verifier::external_body]
fn serialize_byte_array(value: &str) -> (r: Vec<[u8; 32]>)
    ensures
        words_view(r@) == byte_array_words(value@),
{
    let ba = ByteArray::from_string(value).expect("31-byte chunks always fit a word");
    ByteArray::cairo_serialize(&ba).iter().map(|f| f.to_bytes_be()).collect()
}

/// Relies on starknet-crypto's `poseidon_hash_many`.
#[verifier::external_body]
fn poseidon_hash_many(words: &Vec<[u8; 32]>) -> (r: [u8; 32])
    ensures
        r@ == poseidon_of(words_view(words@)),
{
    let felts: Vec<Felt> = words.iter().map(Felt::from_bytes_be).collect();
    starknet_crypto::poseidon_hash_many(&felts).to_bytes_be()
}

/// Relies on the `Debug` of `Felt`.
#[verifier::external_body]
fn felt_text(word: &[u8; 32]) -> (r: String)
    ensures
        r@ == felt_text_of(word@),
{
    format!("{:?}", Felt::from_bytes_be(word))
}

// ---------------------------------------------------------------- text

pub open spec fn trim_start(s: Seq<char>) -> Seq<char>
    decreases s.len(),
{
    if s.len() > 0 && white_space(s[0]) {
        trim_start(s.drop_first())
    } else {
        s
    }
}

pub open spec fn trim_end(s: Seq<char>) -> Seq<char>
    decreases s.len(),
{
    if s.len() > 0 && white_space(s.last()) {
        trim_end(s.drop_last())
    } else {
        s
    }
}

/// The text without leading and trailing whitespace.
pub open spec fn trim(s: Seq<char>) -> Seq<char> {
    trim_end(trim_start(s))
}

proof fn lemma_trim_start(s: Seq<char>, lo: int)
    requires
        0 <= lo <= s.len(),
        forall|i: int| 0 <= i < lo ==> white_space(#[trigger] s[i]),
    ensures
        trim_start(s) == trim_start(s.subrange(lo, s.len() as int)),
    decreases lo,
{
    if lo > 0 {
        lemma_trim_start(s.drop_first(), lo - 1);
        assert(s.drop_first().subrange(lo - 1, s.len() - 1) =~= s.subrange(lo, s.len() as int));
    } else {
        assert(s.subrange(0, s.len() as int) =~= s);
    }
}

proof fn lemma_trim_end(s: Seq<char>, hi: int)
    requires
        0 <= hi <= s.len(),
        forall|i: int| hi <= i < s.len() ==> white_space(#[trigger] s[i]),
    ensures
        trim_end(s) == trim_end(s.subrange(0, hi)),
    decreases s.len() - hi,
{
    if hi < s.len() {
        lemma_trim_end(s.drop_last(), hi);
        assert(s.drop_last().subrange(0, hi) =~= s.subrange(0, hi));
    } else {
        assert(s.subrange(0, hi) =~= s);
    }
}

/// Removes leading and trailing whitespace.
pub fn trim_whitespace(s: &str) -> (r: String)
    ensures
        r@ == trim(s@),
{
    let n = s.unicode_len();
    let mut lo: usize = 0;
    while lo < n && is_whitespace(s.get_char(lo))
        invariant
            n == s@.len(),
            lo <= n,
            forall|i: int| 0 <= i < lo ==> white_space(#[trigger] s@[i]),
        decreases n - lo,
    {
        lo = lo + 1;
    }
    let ghost rest = s@.subrange(lo as int, n as int);
    proof {
        lemma_trim_start(s@, lo as int);
        if lo < n {
            assert(rest[0] == s@[lo as int]);
        }
        assert(trim_start(s@) == rest);
    }
    let mut hi: usize = n;
    while hi > lo && is_whitespace(s.get_char(hi - 1))
        invariant
            n == s@.len(),
            lo <= hi <= n,
            rest == s@.subrange(lo as int, n as int),
            forall|i: int| hi <= i < n ==> white_space(#[trigger] s@[i]),
        decreases hi - lo,
    {
        hi = hi - 1;
    }
    proof {
        assert forall|i: int| hi - lo <= i < rest.len() implies white_space(#[trigger] rest[i]) by {
            assert(rest[i] == s@[i + lo]);
        }
        lemma_trim_end(rest, hi - lo);
        let kept = rest.subrange(0, hi - lo);
        assert(kept =~= s@.subrange(lo as int, hi as int));
        if hi > lo {
            assert(kept.last() == s@[hi - 1]);
        }
        assert(trim_end(kept) == kept);
    }
    String::from_str(s.substring_char(lo, hi))
}

/// The length in bytes of a text's UTF-8 form, as `str::len` gives it.
pub open spec fn byte_len(s: Seq<char>) -> usize {
    encode_utf8(s).len() as usize
}

/// Extracts the content of a quoted string.
///
/// After trimming whitespace, text of fewer than two bytes is too short; text that starts
/// and ends with `"` yields what lies between the quotes; anything else is not quoted.
pub fn extract_quoted_string(input: &str) -> (r: Result<String, &'static str>)
    ensures
        byte_len(trim(input@)) < 2 ==> (r matches Err(m) && m@ == "String too short to be quoted"@),
        byte_len(trim(input@)) >= 2 ==> {
            let t = trim(input@);
            if t.len() >= 2 && t[0] == '"' && t.last() == '"' {
                r matches Ok(s) && s@ == t.subrange(1, t.len() - 1)
            } else {
                r matches Err(m) && m@ == "String is not properly quoted"@
            }
        },
{
    let trimmed = trim_whitespace(input);
    let t = trimmed.as_str();
    if t.len() < 2 {
        return Err("String too short to be quoted");
    }
    let n = t.unicode_len();
    assert(t@ == trim(input@));
    if n >= 2 && t.get_char(0) == '"' && t.get_char(n - 1) == '"' {
        assert(t@.last() == '"');
        Ok(String::from_str(t.substring_char(1, n - 1)))
    } else {
        Err("String is not properly quoted")
    }
}

/// The text with every leading and trailing `(` or `)` removed.
pub open spec fn strip_parens(s: Seq<char>) -> Seq<char>
    decreases s.len(),
{
    if s.len() > 0 && (s[0] == '(' || s[0] == ')') {
        strip_parens(s.drop_first())
    } else if s.len() > 0 && (s.last() == '(' || s.last() == ')') {
        strip_parens(s.drop_last())
    } else {
        s
    }
}

/// The pieces of a text between its commas; a text without commas is one piece.
pub open spec fn split_commas(s: Seq<char>) -> Seq<Seq<char>>
    decreases s.len(),
{
    if s.len() == 0 {
        seq![Seq::empty()]
    } else {
        let p = split_commas(s.drop_last());
        if s.last() == ',' {
            p.push(Seq::empty())
        } else {
            p.update(p.len() - 1, p.last().push(s.last()))
        }
    }
}

proof fn lemma_split_nonempty(s: Seq<char>)
    ensures
        split_commas(s).len() >= 1,
    decreases s.len(),
{
    if s.len() > 0 {
        lemma_split_nonempty(s.drop_last());
    }
}

/// The trimmed pieces of a list of texts.
pub open spec fn trim_all(ps: Seq<Seq<char>>) -> Seq<Seq<char>> {
    ps.map_values(|p: Seq<char>| trim(p))
}

/// The arguments of a macro call written as `("a", "b")`: the text trimmed, stripped of
/// its outer parentheses, split at commas, each piece trimmed.
pub open spec fn argument_texts(text: Seq<char>) -> Seq<Seq<char>> {
    trim_all(split_commas(strip_parens(trim(text))))
}

/// Removes every leading and trailing `(` or `)`.
fn strip_parentheses(s: &str) -> (r: &str)
    ensures
        r@ == strip_parens(s@),
{
    let mut cur = s;
    loop
        invariant
            strip_parens(cur@) == strip_parens(s@),
        decreases cur@.len(),
    {
        let n = cur.unicode_len();
        if n > 0 && (cur.get_char(0) == '(' || cur.get_char(0) == ')') {
            let next = cur.substring_char(1, n);
            proof {
                assert(next@ =~= cur@.drop_first());
            }
            cur = next;
        } else if n > 0 && (cur.get_char(n - 1) == '(' || cur.get_char(n - 1) == ')') {
            let next = cur.substring_char(0, n - 1);
            proof {
                assert(next@ =~= cur@.drop_last());
            }
            cur = next;
        } else {
            return cur;
        }
    }
}

/// Splits a text at its commas.
fn split_at_commas(s: &str) -> (r: Vec<String>)
    ensures
        strings(r@) == split_commas(s@),
{
    let n = s.unicode_len();
    let mut pieces: Vec<String> = Vec::new();
    let mut start: usize = 0;
    let mut i: usize = 0;
    proof {
        assert(s@.take(0) =~= Seq::<char>::empty());
        assert(strings(pieces@).push(s@.subrange(0, 0)) =~= seq![Seq::<char>::empty()]);
    }
    while i < n
        invariant
            n == s@.len(),
            start <= i <= n,
            split_commas(s@.take(i as int)) == strings(pieces@).push(
                s@.subrange(start as int, i as int),
            ),
        decreases n - i,
    {
        let c = s.get_char(i);
        proof {
            assert(s@.take(i + 1).drop_last() =~= s@.take(i as int));
            assert(s@.take(i + 1).last() == c);
        }
        if c == ',' {
            let piece = String::from_str(s.substring_char(start, i));
            proof {
                assert(strings(pieces@.push(piece)) =~= strings(pieces@).push(piece@));
                assert(s@.subrange((i + 1) as int, (i + 1) as int) =~= Seq::<char>::empty());
            }
            pieces.push(piece);
            start = i + 1;
        } else {
            proof {
                assert(s@.subrange(start as int, i as int).push(c) =~= s@.subrange(
                    start as int,
                    (i + 1) as int,
                ));
                let p = strings(pieces@).push(
                    s@.subrange(start as int, i as int),
                );
                assert(p.update(p.len() - 1, p.last().push(c)) =~= strings(pieces@).push(s@.subrange(start as int, (i + 1) as int)));
            }
        }
        i = i + 1;
    }
    let last = String::from_str(s.substring_char(start, n));
    proof {
        assert(s@.take(n as int) =~= s@);
        assert(strings(pieces@.push(last)) =~= strings(pieces@).push(last@));
    }
    pieces.push(last);
    pieces
}

/// Splits the arguments of a call written as `("a", "b")` into trimmed pieces.
pub fn split_arguments(text: &str) -> (r: Vec<String>)
    ensures
        strings(r@) == argument_texts(text@),
{
    let trimmed = trim_whitespace(text);
    let inner = strip_parentheses(trimmed.as_str());
    let pieces = split_at_commas(inner);
    let ghost ps = strings(pieces@);
    let mut r: Vec<String> = Vec::new();
    let mut k: usize = 0;
    while k < pieces.len()
        invariant
            ps == strings(pieces@),
            k <= pieces.len(),
            r.len() == k,
            forall|j: int| 0 <= j < k ==> (#[trigger] r@[j])@ == trim(ps[j]),
        decreases pieces.len() - k,
    {
        r.push(trim_whitespace(pieces[k].as_str()));
        k = k + 1;
    }
    proof {
        assert(strings(r@) =~= argument_texts(text@));
    }
    r
}

// ---------------------------------------------------------------- hashing

/// Why a list of quoted strings could not be hashed.
#[derive(Debug)]
pub enum HashError {
    /// An argument is not a quoted string; the message says why.
    InvalidArgument(&'static str),
}

/// The hash of one string: the Poseidon hash of its `ByteArray` serialization.
pub fn compute_bytearray_hash(value: &str) -> (r: [u8; 32])
    ensures
        r@ == poseidon_of(byte_array_words(value@)),
{
    let words = serialize_byte_array(value);
    poseidon_hash_many(&words)
}

/// The quoted contents of a list of arguments, where every argument is quoted.
pub open spec fn quoted_contents(args: Seq<Seq<char>>) -> Seq<Seq<char>> {
    args.map_values(|a: Seq<char>| trim(a).subrange(1, trim(a).len() - 1))
}

/// Whether an argument is a quoted string.
pub open spec fn is_quoted(a: Seq<char>) -> bool {
    let t = trim(a);
    &&& byte_len(t) >= 2
    &&& t.len() >= 2
    &&& t[0] == '"'
    &&& t.last() == '"'
}

/// What `extract_quoted_string` says of an argument that is not quoted.
pub open spec fn quote_error(a: Seq<char>) -> Seq<char> {
    if byte_len(trim(a)) < 2 {
        "String too short to be quoted"@
    } else {
        "String is not properly quoted"@
    }
}

/// The hashes of the contents of a list of quoted arguments.
pub open spec fn content_hashes(args: Seq<Seq<char>>) -> Seq<Seq<u8>> {
    quoted_contents(args).map_values(|c: Seq<char>| poseidon_of(byte_array_words(c)))
}

/// Hashes the strings of a macro call written as `("a", "b")`: the Poseidon hash of the
/// hashes of each string's `ByteArray` serialization, in argument order, as the `Debug` text
/// of a field element.
///
/// Succeeds exactly where every argument is a quoted string; otherwise fails on the first
/// argument that is not, with the message `extract_quoted_string` gives for it.
pub fn bytearrays_hash(text: &str) -> (r: Result<String, HashError>)
    ensures
        (r is Ok) <==> (forall|k: int|
            0 <= k < argument_texts(text@).len() ==> is_quoted(
                #[trigger] argument_texts(text@)[k],
            )),
        r matches Ok(s) ==> s@ == felt_text_of(poseidon_of(content_hashes(argument_texts(text@)))),
        r matches Err(HashError::InvalidArgument(m)) ==> exists|k: int|
            0 <= k < argument_texts(text@).len() && !is_quoted(
                #[trigger] argument_texts(text@)[k],
            ) && (forall|j: int| 0 <= j < k ==> is_quoted(argument_texts(text@)[j])) && m@
                == quote_error(argument_texts(text@)[k]),
{
    let args = split_arguments(text);
    let ghost a = argument_texts(text@);
    let mut hashes: Vec<[u8; 32]> = Vec::new();
    let mut k: usize = 0;
    while k < args.len()
        invariant
            a == argument_texts(text@),
            strings(args@) == a,
            k <= args.len(),
            hashes.len() == k,
            forall|j: int| 0 <= j < k ==> is_quoted(#[trigger] a[j]),
            forall|j: int|
                0 <= j < k ==> (#[trigger] hashes@[j])@ == poseidon_of(
                    byte_array_words(trim(a[j]).subrange(1, trim(a[j]).len() - 1)),
                ),
        decreases args.len() - k,
    {
        assert(args@[k as int]@ == a[k as int]);
        let content = match extract_quoted_string(args[k].as_str()) {
            Ok(c) => c,
            Err(m) => {
                proof {
                    assert(!is_quoted(a[k as int]));
                    assert(m@ == quote_error(a[k as int]));
                }
                return Err(HashError::InvalidArgument(m));
            },
        };
        hashes.push(compute_bytearray_hash(content.as_str()));
        k = k + 1;
    }
    let h = poseidon_hash_many(&hashes);
    proof {
        assert(words_view(hashes@) =~= content_hashes(a));
    }
    Ok(felt_text(&h))
}

} // verus!
