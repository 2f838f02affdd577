//! The stored form of an address pair: the listen address and the target
//! address as one line of text, separated by the first comma.

use vstd::prelude::*;
use vstd::string::*;

verus! {

/// Whether `c` is white space in the sense of Unicode's `White_Space`
/// property.
pub open spec fn is_space(c: char) -> bool {
    let n = c as u32;
    ||| 0x09 <= n <= 0x0d
    ||| n == 0x20
    ||| n == 0x85
    ||| n == 0xa0
    ||| n == 0x1680
    ||| 0x2000 <= n <= 0x200a
    ||| n == 0x2028
    ||| n == 0x2029
    ||| n == 0x202f
    ||| n == 0x205f
    ||| n == 0x3000
}

/// `s` without the white space it begins with.
pub open spec fn trim_start(s: Seq<char>) -> Seq<char>
    decreases s.len(),
{
    if s.len() > 0 && is_space(s[0]) {
        trim_start(s.drop_first())
    } else {
        s
    }
}

/// `s` without the white space it ends with.
pub open spec fn trim_end(s: Seq<char>) -> Seq<char>
    decreases s.len(),
{
    if s.len() > 0 && is_space(s.last()) {
        trim_end(s.drop_last())
    } else {
        s
    }
}

/// `s` without the white space at either end.
pub open spec fn trimmed(s: Seq<char>) -> Seq<char> {
    trim_end(trim_start(s))
}

/// The position of the first comma in `s`, or the length of `s` where it
/// holds none.
pub open spec fn first_comma(s: Seq<char>) -> int
    decreases s.len(),
{
    if s.len() == 0 || s[0] == ',' {
        0
    } else {
        1 + first_comma(s.drop_first())
    }
}

/// The listen address used where none is stored.
pub open spec fn default_listen() -> Seq<char> {
    "127.0.0.1:815"@
}

/// The target address used where none is stored.
pub open spec fn default_target() -> Seq<char> {
    "127.0.0.1:1815"@
}

/// The address pair that `text` stores: what stands before and after its
/// first comma, each without the white space around it. A text without a
/// comma stores nothing, and stands for the default pair.
pub open spec fn stored_pair(text: Seq<char>) -> (Seq<char>, Seq<char>) {
    let at = first_comma(text);
    if at < text.len() {
        (trimmed(text.subrange(0, at)), trimmed(text.subrange(at + 1, text.len() as int)))
    } else {
        (default_listen(), default_target())
    }
}

/// The text that stores the pair of `listen` and `target`.
pub open spec fn pair_text(listen: Seq<char>, target: Seq<char>) -> Seq<char> {
    listen + ","@ + target
}

pub fn is_whitespace(c: char) -> (r: bool)
    ensures
        r == is_space(c),
{
    let n: u32 = c as u32;
    (0x09 <= n && n <= 0x0d) || n == 0x20 || n == 0x85 || n == 0xa0 || n == 0x1680 || (0x2000 <= n
        && n <= 0x200a) || n == 0x2028 || n == 0x2029 || n == 0x202f || n == 0x205f || n == 0x3000
}

/// Trimming at the start drops a run of white space of any length.
proof fn lemma_trim_start_skip(s: Seq<char>, k: int)
    requires
        0 <= k <= s.len(),
        forall|j: int| 0 <= j < k ==> is_space(s[j]),
    ensures
        trim_start(s) == trim_start(s.skip(k)),
    decreases k,
{
    if k == 0 {
        assert(s.skip(0) =~= s);
    } else {
        let rest = s.drop_first();
        assert forall|j: int| 0 <= j < k - 1 implies is_space(rest[j]) by {
            assert(rest[j] == s[j + 1]);
        }
        lemma_trim_start_skip(rest, k - 1);
        assert(rest.skip(k - 1) =~= s.skip(k));
    }
}

/// Trimming at the end drops a run of white space of any length.
proof fn lemma_trim_end_take(s: Seq<char>, k: int)
    requires
        0 <= k <= s.len(),
        forall|j: int| k <= j < s.len() ==> is_space(s[j]),
    ensures
        trim_end(s) == trim_end(s.take(k)),
    decreases s.len() - k,
{
    if k == s.len() {
        assert(s.take(k) =~= s);
    } else {
        let rest = s.drop_last();
        lemma_trim_end_take(rest, k);
        assert(rest.take(k) =~= s.take(k));
    }
}

/// Where the first comma stands: nothing before it is a comma, and a comma
/// stands there unless the text has none.
pub proof fn lemma_first_comma(s: Seq<char>)
    ensures
        0 <= first_comma(s) <= s.len(),
        forall|j: int| 0 <= j < first_comma(s) ==> s[j] != ',',
        first_comma(s) < s.len() ==> s[first_comma(s)] == ',',
    decreases s.len(),
{
    if s.len() > 0 && s[0] != ',' {
        let rest = s.drop_first();
        lemma_first_comma(rest);
        assert forall|j: int| 0 <= j < first_comma(s) implies s[j] != ',' by {
            if j > 0 {
                assert(s[j] == rest[j - 1]);
            }
        }
    }
}

/// The first comma is where a comma stands that has none before it.
proof fn lemma_first_comma_at(s: Seq<char>, at: int)
    requires
        0 <= at <= s.len(),
        forall|j: int| 0 <= j < at ==> s[j] != ',',
        at < s.len() ==> s[at] == ',',
    ensures
        first_comma(s) == at,
    decreases s.len(),
{
    if at > 0 {
        let rest = s.drop_first();
        assert forall|j: int| 0 <= j < at - 1 implies rest[j] != ',' by {
            assert(rest[j] == s[j + 1]);
        }
        lemma_first_comma_at(rest, at - 1);
    }
}

/// `text` without the white space at either end.
pub fn trim(text: &str) -> (r: String)
    ensures
        r@ == trimmed(text@),
{
    let n = text.unicode_len();
    let mut from: usize = 0;
    while from < n && is_whitespace(text.get_char(from))
        invariant
            from <= n,
            n == text@.len(),
            forall|j: int| 0 <= j < from ==> is_space(text@[j]),
        decreases n - from,
    {
        from += 1;
    }
    let mut to: usize = n;
    while to > from && is_whitespace(text.get_char(to - 1))
        invariant
            from <= to <= n,
            n == text@.len(),
            forall|j: int| to <= j < n ==> is_space(text@[j]),
        decreases to,
    {
        to -= 1;
    }
    proof {
        let rest = text@.skip(from as int);
        lemma_trim_start_skip(text@, from as int);
        assert(trim_start(rest) == rest) by {
            if from < n {
                assert(rest[0] == text@[from as int]);
            }
        }
        let kept = rest.take(to - from);
        assert forall|j: int| to - from <= j < rest.len() implies is_space(rest[j]) by {
            assert(rest[j] == text@[j + from]);
        }
        lemma_trim_end_take(rest, to - from);
        assert(trim_end(kept) == kept) by {
            if to > from {
                assert(kept.last() == text@[to - 1]);
            }
        }
        assert(kept =~= text@.subrange(from as int, to as int));
    }
    String::from_str(text.substring_char(from, to))
}

/// Reads the address pair that `text` stores: the listen address and the
/// target address. A text without a comma gives the default pair.
pub fn parse_address_pair(text: &str) -> (pair: (String, String))
    ensures
        pair.0@ == stored_pair(text@).0,
        pair.1@ == stored_pair(text@).1,
{
    let n = text.unicode_len();
    let mut at: usize = 0;
    while at < n && text.get_char(at) != ','
        invariant
            at <= n,
            n == text@.len(),
            forall|j: int| 0 <= j < at ==> text@[j] != ',',
        decreases n - at,
    {
        at += 1;
    }
    proof {
        lemma_first_comma_at(text@, at as int);
    }
    if at < n {
        (trim(text.substring_char(0, at)), trim(text.substring_char(at + 1, n)))
    } else {
        (String::from_str("127.0.0.1:815"), String::from_str("127.0.0.1:1815"))
    }
}

/// Writes the address pair as the text that stores it.
pub fn format_address_pair(listen: &str, target: &str) -> (text: String)
    ensures
        text@ == pair_text(listen@, target@),
{
    let mut text = String::from_str(listen);
    text.append(",");
    text.append(target);
    text
}

/// What was written is read back: a pair whose listen address holds no
/// comma is read from its text as it was written, but for the white space
/// around each address.
pub proof fn law_pair_round_trip(listen: Seq<char>, target: Seq<char>)
    requires
        forall|j: int| 0 <= j < listen.len() ==> listen[j] != ',',
    ensures
        stored_pair(pair_text(listen, target)) == (trimmed(listen), trimmed(target)),
{
    reveal_strlit(",");
    let text = pair_text(listen, target);
    assert(","@.len() == 1 && ","@[0] == ',');
    assert(text.len() == listen.len() + 1 + target.len());
    assert forall|j: int| 0 <= j < listen.len() implies text[j] != ',' by {
        assert(text[j] == listen[j]);
    }
    assert(text[listen.len() as int] == ',');
    lemma_first_comma_at(text, listen.len() as int);
    assert(text.subrange(0, listen.len() as int) =~= listen);
    assert(text.subrange(listen.len() as int + 1, text.len() as int) =~= target);
}

} // verus!
