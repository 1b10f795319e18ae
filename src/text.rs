use vstd::prelude::*;

verus! {

/// The decimal digit character for `d < 10`.
pub open spec fn digit_char(d: int) -> char {
    seq!['0', '1', '2', '3', '4', '5', '6', '7', '8', '9'][d]
}

/// The decimal text of `n`, without sign or leading zeros.
pub open spec fn decimal_text(n: nat) -> Seq<char>
    decreases n,
{
    if n < 10 {
        seq![digit_char(n as int)]
    } else {
        decimal_text(n / 10).push(digit_char((n % 10) as int))
    }
}

pub open spec fn is_digit(c: char) -> bool {
    '0' <= c && c <= '9'
}

pub open spec fn digit_value(c: char) -> int {
    c as int - '0' as int
}

/// The number that a string of decimal digits spells.
pub open spec fn digits_value(s: Seq<char>) -> int
    decreases s.len(),
{
    if s.len() == 0 {
        0
    } else {
        digits_value(s.drop_last()) * 10 + digit_value(s.last())
    }
}

/// The digits of an unsigned decimal, after an optional leading `+`.
pub open spec fn unsigned_body(s: Seq<char>) -> Seq<char> {
    if s.len() > 0 && s[0] == '+' {
        s.drop_first()
    } else {
        s
    }
}

/// What an unsigned 16-bit decimal reads as: an optional `+`, then one or
/// more digits whose value fits in 16 bits. Anything else reads as nothing.
pub open spec fn parse_u16(s: Seq<char>) -> Option<u16> {
    let body = unsigned_body(s);
    if body.len() > 0 && (forall|i: int| 0 <= i < body.len() ==> is_digit(#[trigger] body[i]))
        && digits_value(body) <= u16::MAX {
        Some(digits_value(body) as u16)
    } else {
        None
    }
}

/// A line of the server's own voice.
pub open spec fn server_line(t: Seq<char>) -> Seq<char> {
    "[SERVER] "@ + t
}

/// A line that a peer said, as the others see it.
pub open spec fn chat_line(name: Seq<char>, t: Seq<char>) -> Seq<char> {
    "("@ + name + ") "@ + t
}

/// A broadcast line, in the server's voice or in a peer's.
pub open spec fn rendered(name: Seq<char>, t: Seq<char>, is_server: bool) -> Seq<char> {
    if is_server {
        server_line(t)
    } else {
        chat_line(name, t)
    }
}

proof fn lemma_digits_value_nonneg(s: Seq<char>)
    requires
        forall|i: int| 0 <= i < s.len() ==> is_digit(#[trigger] s[i]),
    ensures
        digits_value(s) >= 0,
    decreases s.len(),
{
    if s.len() > 0 {
        assert(is_digit(s[s.len() - 1]));
        lemma_digits_value_nonneg(s.drop_last());
    }
}

fn digit_str(d: u16) -> (r: &'static str)
    requires
        d < 10,
    ensures
        r@ == seq![digit_char(d as int)],
{
    proof {
        reveal_strlit("0");
        reveal_strlit("1");
        reveal_strlit("2");
        reveal_strlit("3");
        reveal_strlit("4");
        reveal_strlit("5");
        reveal_strlit("6");
        reveal_strlit("7");
        reveal_strlit("8");
        reveal_strlit("9");
    }
    let r = if d == 0 {
        "0"
    } else if d == 1 {
        "1"
    } else if d == 2 {
        "2"
    } else if d == 3 {
        "3"
    } else if d == 4 {
        "4"
    } else if d == 5 {
        "5"
    } else if d == 6 {
        "6"
    } else if d == 7 {
        "7"
    } else if d == 8 {
        "8"
    } else {
        "9"
    };
    assert(r@ =~= seq![digit_char(d as int)]);
    r
}

/// Writes `n` in decimal.
pub fn decimal(n: u16) -> (r: String)
    ensures
        r@ == decimal_text(n as nat),
    decreases n,
{
    if n < 10 {
        String::from_str(digit_str(n))
    } else {
        let mut s = decimal(n / 10);
        s.append(digit_str(n % 10));
        s
    }
}

/// Reads an unsigned 16-bit decimal, as `str::parse::<u16>` does.
pub fn parse_u16_text(s: &str) -> (r: Option<u16>)
    ensures
        r == parse_u16(s@),
{
    let n = s.unicode_len();
    let mut start: usize = 0;
    if n > 0 && s.get_char(0) == '+' {
        start = 1;
    }
    let ghost body = unsigned_body(s@);
    assert(body =~= s@.subrange(start as int, n as int));
    if start == n {
        return None;
    }
    let mut acc: u32 = 0;
    let mut too_big = false;
    let mut i: usize = start;
    while i < n
        invariant
            start <= i <= n,
            n == s@.len(),
            body == s@.subrange(start as int, n as int),
            body == unsigned_body(s@),
            forall|j: int| 0 <= j < i - start ==> is_digit(#[trigger] body[j]),
            !too_big ==> acc as int == digits_value(body.subrange(0, i - start)) && acc <= u16::MAX,
            too_big ==> digits_value(body.subrange(0, i - start)) > u16::MAX,
        decreases n - i,
    {
        let c = s.get_char(i);
        let ghost pre = body.subrange(0, i - start);
        let ghost next = body.subrange(0, i + 1 - start);
        assert(next.drop_last() =~= pre);
        assert(next.last() == c);
        if !('0' <= c && c <= '9') {
            assert(!is_digit(body[i - start]));
            assert(!(forall|j: int| 0 <= j < body.len() ==> is_digit(#[trigger] body[j])));
            return None;
        }
        proof {
            assert forall|j: int| 0 <= j < pre.len() implies is_digit(#[trigger] pre[j]) by {
                assert(pre[j] == body[j]);
            }
            lemma_digits_value_nonneg(pre);
        }
        let d: u32 = (c as u32) - ('0' as u32);
        if !too_big {
            let v: u32 = acc * 10 + d;
            if v > u16::MAX as u32 {
                too_big = true;
            } else {
                acc = v;
            }
        }
        i = i + 1;
    }
    assert(body.subrange(0, n - start) =~= body);
    if too_big {
        None
    } else {
        Some(acc as u16)
    }
}

/// Renders a line in the server's voice: `[SERVER] <t>`.
pub fn server_text(t: &str) -> (r: String)
    ensures
        r@ == server_line(t@),
{
    let mut s = String::from_str("[SERVER] ");
    s.append(t);
    s
}

/// Renders a broadcast line: `[SERVER] <t>` from the server, `(<name>) <t>`
/// from a peer.
pub fn render(name: &str, t: &str, is_server: bool) -> (r: String)
    ensures
        r@ == rendered(name@, t@, is_server),
{
    if is_server {
        server_text(t)
    } else {
        let mut s = String::from_str("(");
        s.append(name);
        s.append(") ");
        s.append(t);
        s
    }
}

} // verus!
