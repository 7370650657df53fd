//! UUID texts: queue row ids, PTY epochs and agent instance ids.
use crate::text::ascii_lower;
use vstd::prelude::*;

verus! {

/// A hexadecimal digit, in either case.
pub open spec fn is_hex_char(c: char) -> bool {
    ('0' <= c <= '9') || ('a' <= c <= 'f') || ('A' <= c <= 'F')
}

/// The places of the hyphens in a hyphenated UUID.
pub open spec fn is_hyphen_place(i: int) -> bool {
    i == 8 || i == 13 || i == 18 || i == 23
}

/// `s` is 36 characters of hexadecimal digits in groups of 8, 4, 4, 4 and 12, parted by hyphens.
pub open spec fn is_hyphenated(s: Seq<char>) -> bool {
    &&& s.len() == 36
    &&& forall|i: int|
        0 <= i < 36 ==> if is_hyphen_place(i) {
            #[trigger] s[i] == '-'
        } else {
            is_hex_char(s[i])
        }
}

/// `s` is 32 hexadecimal digits.
pub open spec fn is_simple(s: Seq<char>) -> bool {
    s.len() == 32 && forall|i: int| 0 <= i < 32 ==> is_hex_char(#[trigger] s[i])
}

/// `s` with ASCII capitals replaced by small letters.
pub open spec fn lowered(s: Seq<char>) -> Seq<char> {
    s.map_values(|c: char| ascii_lower(c))
}

/// The 32 digits of `s` with hyphens put between the groups.
pub open spec fn with_hyphens(s: Seq<char>) -> Seq<char> {
    s.subrange(0, 8) + seq!['-'] + s.subrange(8, 12) + seq!['-'] + s.subrange(12, 16) + seq!['-']
        + s.subrange(16, 20) + seq!['-'] + s.subrange(20, 32)
}

/// The canonical text of the UUID that `s` writes, if it writes one: plain digits, the
/// hyphenated form, that form in braces, or behind `urn:uuid:` in letters of any case.
pub open spec fn uuid_text(s: Seq<char>) -> Option<Seq<char>> {
    if is_simple(s) {
        Some(lowered(with_hyphens(s)))
    } else if is_hyphenated(s) {
        Some(lowered(s))
    } else if s.len() == 38 && s[0] == '{' && s[37] == '}' && is_hyphenated(s.subrange(1, 37)) {
        Some(lowered(s.subrange(1, 37)))
    } else if s.len() == 45 && lowered(s.take(9)) == seq!['u', 'r', 'n', ':', 'u', 'u', 'i', 'd', ':']
        && is_hyphenated(s.skip(9)) {
        Some(lowered(s.skip(9)))
    } else {
        None
    }
}

/// A canonical UUID text: hyphenated, with small letters only.
pub open spec fn is_canonical_uuid(s: Seq<char>) -> bool {
    is_hyphenated(s) && lowered(s) == s
}

/// A canonical UUID text with the version and variant digits of a random UUID.
pub open spec fn is_random_uuid(s: Seq<char>) -> bool {
    is_canonical_uuid(s) && s[14] == '4' && (s[19] == '8' || s[19] == '9' || s[19] == 'a' || s[19]
        == 'b')
}

/// Calls `uuid::Uuid::new_v4` and writes the UUID out with `Display`.
///
/// Trusted: the text is hyphenated and in small letters, with version digit 4 and the
/// variant digit that goes with it. Which UUID it is, chance decides.
#[verifier::external_body]
pub(crate) fn random_uuid() -> (r: String)
    ensures
        is_random_uuid(r@),
{
    uuid::Uuid::new_v4().to_string()
}

/// Calls `uuid::Uuid::parse_str` and writes the UUID out with `Display`.
///
/// Trusted: a text is accepted exactly when it has one of the four documented forms
/// (simple, hyphenated, braced, URN), and the UUID is written hyphenated in small letters.
#[verifier::external_body]
fn parse_uuid(s: &str) -> (r: Option<String>)
    ensures
        r.deep_view() == uuid_text(s@),
{
    uuid::Uuid::parse_str(s).ok().map(|u| u.to_string())
}

/// The identity of one run of an agent, kept as canonical UUID text.
#[derive(Debug, PartialEq, Eq)]
pub struct AgentInstanceId {
    text: String,
}

impl View for AgentInstanceId {
    type V = Seq<char>;

    closed spec fn view(&self) -> Seq<char> {
        self.text@
    }
}

impl AgentInstanceId {
    /// Reads an instance id in any form that a UUID may take.
    pub fn parse(text: &str) -> (r: Option<Self>)
        ensures
            match r {
                Some(id) => uuid_text(text@) == Some(id@),
                None => uuid_text(text@) is None,
            },
    {
        match parse_uuid(text) {
            Some(canonical) => Some(AgentInstanceId { text: canonical }),
            None => None,
        }
    }

    /// The canonical text of the id.
    pub fn into_text(self) -> (r: String)
        ensures
            r@ == self@,
    {
        self.text
    }
}

/// Every id that can be read is written canonically.
pub proof fn law_uuid_text_is_canonical(s: Seq<char>)
    ensures
        uuid_text(s) matches Some(t) ==> is_canonical_uuid(t),
{
    if let Some(t) = uuid_text(s) {
        let h = if is_simple(s) {
            with_hyphens(s)
        } else if is_hyphenated(s) {
            s
        } else if s.len() == 38 {
            s.subrange(1, 37)
        } else {
            s.skip(9)
        };
        assert(t == lowered(h));
        assert(is_hyphenated(h));
        assert forall|i: int| 0 <= i < 36 implies if is_hyphen_place(i) {
            #[trigger] t[i] == '-'
        } else {
            is_hex_char(t[i])
        } by {
            assert(t[i] == ascii_lower(h[i]));
        }
        assert(lowered(t) =~= t);
    }
}

/// Reading a canonical id gives that id back.
pub proof fn law_canonical_uuid_reads_as_itself(s: Seq<char>)
    requires
        is_canonical_uuid(s),
    ensures
        uuid_text(s) == Some(s),
{
}

/// `c` is one of the sixteen digits, in small letters or in capitals.
pub open spec fn is_written_digit(c: char) -> bool {
    "0123456789abcdefABCDEF"@.contains(c)
}

/// The 36 characters of `s` from `from` on are digits, with a hyphen behind the 8th, the 12th, the
/// 16th and the 20th digit.
pub open spec fn is_grouped(s: Seq<char>, from: int) -> bool {
    &&& s[from + 8] == '-' && s[from + 13] == '-' && s[from + 18] == '-' && s[from + 23] == '-'
    &&& forall|i: int|
        from <= i < from + 36 && i != from + 8 && i != from + 13 && i != from + 18 && i != from + 23
            ==> is_written_digit(#[trigger] s[i])
}

/// `small` is `c`, or the small letter for the capital `c`.
pub open spec fn is_small_of(small: char, c: char) -> bool {
    if 'A' <= c <= 'Z' {
        small as u32 == c as u32 + 32
    } else {
        small == c
    }
}

/// `t` is `s` from `from` on, in small letters.
pub open spec fn is_copied_small(t: Seq<char>, s: Seq<char>, from: int) -> bool {
    t.len() == 36 && forall|i: int| 0 <= i < 36 ==> is_small_of(#[trigger] t[i], s[from + i])
}

/// Where digit `k` stands in a grouped UUID.
pub open spec fn digit_place(k: int) -> int {
    if k < 8 {
        k
    } else if k < 12 {
        k + 1
    } else if k < 16 {
        k + 2
    } else if k < 20 {
        k + 3
    } else {
        k + 4
    }
}

proof fn lemma_digits(c: char)
    ensures
        is_hex_char(c) <==> is_written_digit(c),
{
    let digits = "0123456789abcdefABCDEF"@;
    reveal_strlit("0123456789abcdefABCDEF");
    if is_hex_char(c) {
        let i = if c <= '9' {
            c as int - '0' as int
        } else if c <= 'F' {
            c as int - 'A' as int + 16
        } else {
            c as int - 'a' as int + 10
        };
        assert(digits[i] == c);
    }
}

proof fn lemma_grouped(s: Seq<char>, from: int)
    requires
        0 <= from,
        from + 36 <= s.len(),
    ensures
        is_hyphenated(s.subrange(from, from + 36)) <==> is_grouped(s, from),
        is_copied_small(lowered(s.subrange(from, from + 36)), s, from),
{
    let h = s.subrange(from, from + 36);
    assert forall|i: int| 0 <= i < 36 implies (is_hex_char(#[trigger] h[i]) <==> is_written_digit(
        s[from + i],
    )) by {
        lemma_digits(h[i]);
    }
    if is_hyphenated(h) {
        assert(h[8] == '-' && h[13] == '-' && h[18] == '-' && h[23] == '-');
        assert forall|i: int|
            from <= i < from + 36 && i != from + 8 && i != from + 13 && i != from + 18 && i != from
                + 23 implies is_written_digit(#[trigger] s[i]) by {
            assert(h[i - from] == s[i]);
        }
    }
    if is_grouped(s, from) {
        assert forall|i: int| 0 <= i < 36 implies if is_hyphen_place(i) {
            #[trigger] h[i] == '-'
        } else {
            is_hex_char(h[i])
        } by {
            assert(h[i] == s[from + i]);
        }
    }
}

/// The texts that write a UUID, and what they write: 36 grouped characters, the same in braces or
/// behind `urn:uuid:`, written in small letters.
pub proof fn law_grouped_texts_are_uuids(s: Seq<char>)
    ensures
        s.len() == 36 ==> (uuid_text(s) is Some <==> is_grouped(s, 0)),
        s.len() == 38 ==> (uuid_text(s) is Some <==> s[0] == '{' && s[37] == '}' && is_grouped(
            s,
            1,
        )),
        s.len() == 45 ==> (uuid_text(s) is Some <==> is_grouped(s, 9) && forall|i: int|
            0 <= i < 9 ==> is_small_of("urn:uuid:"@[i], #[trigger] s[i])),
        s.len() == 36 && uuid_text(s) is Some ==> is_copied_small(uuid_text(s)->0, s, 0),
        s.len() == 38 && uuid_text(s) is Some ==> is_copied_small(uuid_text(s)->0, s, 1),
        s.len() == 45 && uuid_text(s) is Some ==> is_copied_small(uuid_text(s)->0, s, 9),
        s.len() != 32 && s.len() != 36 && s.len() != 38 && s.len() != 45 ==> uuid_text(s) is None,
{
    reveal_strlit("urn:uuid:");
    if s.len() == 36 {
        assert(s.subrange(0, 36) =~= s);
        lemma_grouped(s, 0);
    } else if s.len() == 38 {
        lemma_grouped(s, 1);
    } else if s.len() == 45 {
        assert(s.subrange(9, 45) =~= s.skip(9));
        lemma_grouped(s, 9);
        let scheme = seq!['u', 'r', 'n', ':', 'u', 'u', 'i', 'd', ':'];
        assert("urn:uuid:"@ =~= scheme);
        if lowered(s.take(9)) == scheme {
            assert forall|i: int| 0 <= i < 9 implies is_small_of(
                "urn:uuid:"@[i],
                #[trigger] s[i],
            ) by {
                assert(lowered(s.take(9))[i] == ascii_lower(s[i]));
            }
        }
        if forall|i: int| 0 <= i < 9 ==> is_small_of("urn:uuid:"@[i], #[trigger] s[i]) {
            assert forall|i: int| 0 <= i < 9 implies #[trigger] lowered(s.take(9))[i]
                == scheme[i] by {
                assert(is_small_of("urn:uuid:"@[i], s[i]));
            }
            assert(lowered(s.take(9)) =~= scheme);
        }
    }
}

/// A text of 32 characters writes a UUID where all of them are digits: those, in small letters and
/// in their places between hyphens.
pub proof fn law_plain_digits_are_uuids(s: Seq<char>)
    requires
        s.len() == 32,
    ensures
        uuid_text(s) is Some <==> forall|k: int|
            0 <= k < 32 ==> is_written_digit(#[trigger] s[k]),
        uuid_text(s) matches Some(t) ==> {
            &&& t.len() == 36
            &&& t[8] == '-' && t[13] == '-' && t[18] == '-' && t[23] == '-'
            &&& forall|k: int|
                0 <= k < 32 ==> is_small_of(t[digit_place(k)], #[trigger] s[k])
        },
{
    assert forall|k: int| 0 <= k < 32 implies (is_hex_char(#[trigger] s[k]) <==> is_written_digit(
        s[k],
    )) by {
        lemma_digits(s[k]);
    }
    assert forall|k: int| 0 <= k < 32 implies with_hyphens(s)[digit_place(k)] == #[trigger] s[k] by {
        if k < 8 {
        } else if k < 12 {
        } else if k < 16 {
        } else if k < 20 {
        }
    }
    if let Some(t) = uuid_text(s) {
        assert forall|k: int| 0 <= k < 32 implies is_small_of(
            t[digit_place(k)],
            #[trigger] s[k],
        ) by {
            assert(t[digit_place(k)] == ascii_lower(with_hyphens(s)[digit_place(k)]));
        }
    }
}

/// What every random UUID looks like: grouped digits without capitals, of version 4 and of the
/// variant that goes with it.
pub proof fn law_random_uuids_have_version_4(s: Seq<char>)
    ensures
        is_random_uuid(s) <==> {
            &&& s.len() == 36
            &&& is_grouped(s, 0)
            &&& forall|i: int| 0 <= i < 36 ==> !('A' <= #[trigger] s[i] <= 'Z')
            &&& s[14] == '4'
            &&& "89ab"@.contains(s[19])
        },
{
    reveal_strlit("89ab");
    let variants = "89ab"@;
    assert(variants[0] == '8' && variants[1] == '9' && variants[2] == 'a' && variants[3] == 'b');
    if s.len() == 36 {
        assert(s.subrange(0, 36) =~= s);
        lemma_grouped(s, 0);
        if lowered(s) == s {
            assert forall|i: int| 0 <= i < 36 implies !('A' <= #[trigger] s[i] <= 'Z') by {
                assert(lowered(s)[i] == ascii_lower(s[i]));
            }
        }
        if forall|i: int| 0 <= i < 36 ==> !('A' <= #[trigger] s[i] <= 'Z') {
            assert(lowered(s) =~= s);
        }
    }
}

} // verus!
