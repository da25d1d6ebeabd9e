use vstd::prelude::*;

verus! {

/// Characters with the Unicode White_Space property.
pub open spec fn is_ws(c: char) -> bool {
    ||| ('\u{9}' <= c && c <= '\u{d}')
    ||| c == ' '
    ||| c == '\u{85}'
    ||| c == '\u{a0}'
    ||| c == '\u{1680}'
    ||| ('\u{2000}' <= c && c <= '\u{200a}')
    ||| c == '\u{2028}'
    ||| c == '\u{2029}'
    ||| c == '\u{202f}'
    ||| c == '\u{205f}'
    ||| c == '\u{3000}'
}

/// The whitespace-separated fields of `s` from position `i` on, where `cur`
/// is the part of a field already read before `i`.
pub open spec fn fields_from(s: Seq<char>, i: int, cur: Seq<char>) -> Seq<Seq<char>>
    decreases s.len() - i,
{
    let done = if cur.len() > 0 {
        seq![cur]
    } else {
        Seq::empty()
    };
    if i < 0 || i >= s.len() {
        done
    } else if is_ws(s[i]) {
        done + fields_from(s, i + 1, Seq::empty())
    } else {
        fields_from(s, i + 1, cur.push(s[i]))
    }
}

/// The non-empty runs of non-whitespace characters of `s`, in order.
pub open spec fn fields(s: Seq<char>) -> Seq<Seq<char>> {
    fields_from(s, 0, Seq::empty())
}

/// The second field of a line, if it has one.
pub open spec fn second_field(s: Seq<char>) -> Option<Seq<char>> {
    if fields(s).len() >= 2 {
        Some(fields(s)[1])
    } else {
        None
    }
}

/// Whether `c` is whitespace.
pub fn is_whitespace(c: char) -> (r: bool)
    ensures
        r == is_ws(c),
{
    ('\u{9}' <= c && c <= '\u{d}') || c == ' ' || c == '\u{85}' || c == '\u{a0}' || c
        == '\u{1680}' || ('\u{2000}' <= c && c <= '\u{200a}') || c == '\u{2028}' || c
        == '\u{2029}' || c == '\u{202f}' || c == '\u{205f}' || c == '\u{3000}'
}

/// The second whitespace-separated field of `line`, if there is one.
pub fn second_field_of(line: &str) -> (r: Option<String>)
    ensures
        match second_field(line@) {
            None => r is None,
            Some(f) => r is Some && r->Some_0@ == f,
        },
{
    let ghost s = line@;
    let n = line.unicode_len();
    let mut i: usize = 0;
    let mut count: usize = 0;
    let mut in_word = false;
    let mut second = String::new();
    let ghost mut done: Seq<Seq<char>> = Seq::empty();
    let ghost mut cur: Seq<char> = Seq::empty();
    while i < n
        invariant
            s == line@,
            n == s.len(),
            i <= n,
            count <= i,
            fields(s) == done + fields_from(s, i as int, cur),
            in_word == (cur.len() > 0),
            count == done.len() + if in_word { 1int } else { 0int },
            done.len() >= 2 ==> second@ == done[1],
            done.len() == 1 ==> second@ == cur,
            done.len() == 0 ==> second@.len() == 0,
        decreases n - i,
    {
        let c = line.get_char(i);
        if is_whitespace(c) {
            proof {
                let d = if cur.len() > 0 { seq![cur] } else { Seq::<Seq<char>>::empty() };
                assert(fields_from(s, i as int, cur) == d + fields_from(s, i + 1, Seq::empty()));
                assert(done + fields_from(s, i as int, cur) =~= (done + d) + fields_from(
                    s,
                    i + 1,
                    Seq::empty(),
                ));
                if cur.len() > 0 {
                    assert((done + d)[done.len() as int] == cur);
                }
                done = done + d;
                cur = Seq::empty();
            }
            in_word = false;
        } else {
            if !in_word {
                count += 1;
                in_word = true;
            }
            if count == 2 {
                second.push(c);
            }
            proof {
                cur = cur.push(c);
            }
        }
        i += 1;
    }
    proof {
        let d = if cur.len() > 0 { seq![cur] } else { Seq::<Seq<char>>::empty() };
        assert(fields_from(s, i as int, cur) == d);
        if cur.len() > 0 && done.len() == 1 {
            assert((done + d)[1] == cur);
        }
    }
    if count >= 2 {
        Some(second)
    } else {
        None
    }
}

#[verifier::external_type_specification]
#[verifier::external_body]
pub struct ExDecodeError(base64::DecodeError);

/// The bytes that standard, padded base64 text decodes to, or `None` where
/// the text is not valid base64.
pub uninterp spec fn base64_decoded(text: Seq<char>) -> Option<Seq<u8>>;

/// Relies on base64's `Engine::decode` with the `STANDARD` engine: the
/// decoded bytes, or an error where the text is not valid; the outcome
/// depends on the text alone.
#[verifier::external_body]
fn decode_base64(text: &str) -> (r: Result<Vec<u8>, base64::DecodeError>)
    ensures
        match r {
            Ok(v) => base64_decoded(text@) == Some(v@),
            Err(_) => base64_decoded(text@) is None,
        },
{
    base64::Engine::decode(&base64::engine::general_purpose::STANDARD, text)
}

/// Why a public-key line could not be decoded.
#[derive(PartialEq, Eq, Structural, Debug, Clone, Copy)]
pub enum PubkeyError {
    /// The line has fewer than two whitespace-separated fields.
    MissingKeyField,
    /// The key field is not valid base64.
    InvalidBase64,
}

/// The raw key bytes of a public-key line `<type> <base64 key> [comment]`.
pub fn decode_pubkey_line(line: &str) -> (r: Result<Vec<u8>, PubkeyError>)
    ensures
        match second_field(line@) {
            None => r == Err::<Vec<u8>, PubkeyError>(PubkeyError::MissingKeyField),
            Some(f) => match base64_decoded(f) {
                Some(bytes) => r is Ok && r->Ok_0@ == bytes,
                None => r == Err::<Vec<u8>, PubkeyError>(PubkeyError::InvalidBase64),
            },
        },
{
    match second_field_of(line) {
        None => Err(PubkeyError::MissingKeyField),
        Some(field) => match decode_base64(field.as_str()) {
            Ok(bytes) => Ok(bytes),
            Err(_) => Err(PubkeyError::InvalidBase64),
        },
    }
}

} // verus!
