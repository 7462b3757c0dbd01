//! Text handling of the synchronous console protocol: one request is a
//! command line; the response is everything the worker prints before its
//! next prompt marker, with the echoed command and surrounding whitespace
//! stripped. The blocking reads and writes themselves live outside the
//! library; these functions decide when a response is complete and what
//! text it carries.

use vstd::prelude::*;

verus! {

/// The worker's prompt marker: the two bytes of `"> "`.
pub open spec fn prompt() -> Seq<u8> {
    seq![62u8, 32u8]
}

/// `pat` occurs in `buf` starting at position `i`.
pub open spec fn matches_at(buf: Seq<u8>, pat: Seq<u8>, i: int) -> bool {
    0 <= i && i + pat.len() <= buf.len() && buf.subrange(i, i + pat.len() as int) == pat
}

pub open spec fn contains_prompt(buf: Seq<u8>) -> bool {
    exists|i: int| matches_at(buf, prompt(), i)
}

/// The first position at or after `i` where the prompt occurs, or
/// `buf.len()` where it does not.
pub open spec fn first_prompt(buf: Seq<u8>, i: int) -> int
    decreases buf.len() - i,
{
    if i < 0 || i + prompt().len() > buf.len() {
        buf.len() as int
    } else if matches_at(buf, prompt(), i) {
        i
    } else {
        first_prompt(buf, i + 1)
    }
}

proof fn lemma_match_bytes(buf: Seq<u8>, i: int)
    requires
        matches_at(buf, prompt(), i),
    ensures
        buf[i] == 62,
        buf[i + 1] == 32,
{
    assert(buf.subrange(i, i + 2)[0] == buf[i]);
    assert(buf.subrange(i, i + 2)[1] == buf[i + 1]);
    assert(prompt()[0] == 62);
    assert(prompt()[1] == 32);
}

proof fn lemma_bytes_match(buf: Seq<u8>, i: int)
    requires
        0 <= i,
        i + 2 <= buf.len(),
        buf[i] == 62,
        buf[i + 1] == 32,
    ensures
        matches_at(buf, prompt(), i),
{
    assert(buf.subrange(i, i + 2) =~= prompt());
}

proof fn lemma_first_prompt_from(buf: Seq<u8>, a: int, i: int)
    requires
        0 <= a <= i,
        matches_at(buf, prompt(), i),
        forall|j: int| a <= j < i ==> !matches_at(buf, prompt(), j),
    ensures
        first_prompt(buf, a) == i,
    decreases i - a,
{
    if a < i {
        lemma_first_prompt_from(buf, a + 1, i);
    }
}

/// Scans the accumulated output for the first prompt marker: the response
/// is complete exactly when one is present.
pub fn find_prompt(buf: &Vec<u8>) -> (r: Option<usize>)
    ensures
        match r {
            Some(i) => i as int == first_prompt(buf@, 0) && matches_at(buf@, prompt(), i as int)
                && forall|j: int| 0 <= j < i ==> !matches_at(buf@, prompt(), j),
            None => !contains_prompt(buf@),
        },
{
    if buf.len() < 2 {
        proof {
            assert forall|j: int| !matches_at(buf@, prompt(), j) by {
                if matches_at(buf@, prompt(), j) {
                    assert(j + 2 <= buf@.len());
                }
            }
        }
        return None;
    }
    let mut i: usize = 0;
    while i <= buf.len() - 2
        invariant
            buf@.len() >= 2,
            i <= buf@.len() - 1,
            forall|j: int| 0 <= j < i ==> !matches_at(buf@, prompt(), j),
        decreases buf@.len() - i,
    {
        if buf[i] == 62 && buf[i + 1] == 32 {
            proof {
                lemma_bytes_match(buf@, i as int);
                lemma_first_prompt_from(buf@, 0, i as int);
            }
            return Some(i);
        }
        proof {
            assert(!matches_at(buf@, prompt(), i as int)) by {
                if matches_at(buf@, prompt(), i as int) {
                    lemma_match_bytes(buf@, i as int);
                }
            }
        }
        i += 1;
    }
    proof {
        assert forall|j: int| !matches_at(buf@, prompt(), j) by {
            if matches_at(buf@, prompt(), j) {
                assert(j + 2 <= buf@.len());
                assert(0 <= j < i);
            }
        }
    }
    None
}

/// What remains of the text before the prompt once the echoed command is
/// stripped: the bytes after the command where the text starts with it,
/// the whole text otherwise.
pub open spec fn strip_echo(cmd: Seq<u8>, head: Seq<u8>) -> Seq<u8> {
    if cmd.len() <= head.len() && head.take(cmd.len() as int) == cmd {
        head.skip(cmd.len() as int)
    } else {
        head
    }
}

/// ASCII whitespace as the console emits it: blank, tab, line feed,
/// carriage return.
pub open spec fn is_ws(b: u8) -> bool {
    b == 32 || b == 9 || b == 10 || b == 13
}

pub open spec fn first_non_ws(s: Seq<u8>, i: int) -> int
    decreases s.len() - i,
{
    if i < 0 || i >= s.len() {
        s.len() as int
    } else if !is_ws(s[i]) {
        i
    } else {
        first_non_ws(s, i + 1)
    }
}

pub open spec fn last_non_ws(s: Seq<u8>, i: int) -> int
    decreases i,
{
    if i <= 0 || i > s.len() {
        -1
    } else if !is_ws(s[i - 1]) {
        i - 1
    } else {
        last_non_ws(s, i - 1)
    }
}

/// The text with leading and trailing whitespace removed.
pub open spec fn trim(s: Seq<u8>) -> Seq<u8> {
    let a = first_non_ws(s, 0);
    let b = last_non_ws(s, s.len() as int);
    if a <= b {
        s.subrange(a, b + 1)
    } else {
        Seq::empty()
    }
}

/// The response text of one exchange: everything before the first prompt,
/// with the echoed command and surrounding whitespace stripped.
pub open spec fn response_of(cmd: Seq<u8>, buf: Seq<u8>) -> Seq<u8> {
    trim(strip_echo(cmd, buf.take(first_prompt(buf, 0))))
}

/// The command line the driver writes for one request: the command
/// terminated by a line feed.
pub fn request_line(cmd: &Vec<u8>) -> (r: Vec<u8>)
    ensures
        r@ == cmd@ + seq![10u8],
{
    let mut r: Vec<u8> = Vec::new();
    let mut i: usize = 0;
    while i < cmd.len()
        invariant
            i <= cmd@.len(),
            r@ == cmd@.take(i as int),
        decreases cmd@.len() - i,
    {
        r.push(cmd[i]);
        assert(r@ =~= cmd@.take(i + 1));
        i += 1;
    }
    r.push(10);
    proof {
        assert(cmd@.take(cmd@.len() as int) =~= cmd@);
        assert(r@ =~= cmd@ + seq![10u8]);
    }
    r
}

/// Extracts the response once a prompt has arrived: `None` while the
/// accumulated output holds no prompt yet (the caller keeps reading),
/// otherwise the trimmed text with the echo stripped, which never holds
/// a prompt fragment.
pub fn try_extract(cmd: &Vec<u8>, buf: &Vec<u8>) -> (r: Option<Vec<u8>>)
    ensures
        match r {
            Some(text) => contains_prompt(buf@) && text@ == response_of(cmd@, buf@)
                && forall|j: int| !matches_at(text@, prompt(), j),
            None => !contains_prompt(buf@),
        },
{
    let end = match find_prompt(buf) {
        None => {
            return None;
        },
        Some(i) => i,
    };
    let ghost head = buf@.take(end as int);
    // Strip the echoed command where the text starts with it.
    let mut start: usize = 0;
    if cmd.len() <= end {
        let mut t: usize = 0;
        let mut is_echo = true;
        while t < cmd.len()
            invariant
                cmd@.len() <= end as int <= buf@.len(),
                t <= cmd@.len(),
                is_echo <==> forall|j: int| 0 <= j < t ==> buf@[j] == cmd@[j],
            decreases cmd@.len() - t,
        {
            if buf[t] != cmd[t] {
                is_echo = false;
            }
            t += 1;
        }
        if is_echo {
            start = cmd.len();
            proof {
                assert(head.take(cmd@.len() as int) =~= cmd@);
            }
        } else {
            proof {
                let ghost w = choose|j: int| 0 <= j < cmd@.len() && buf@[j] != cmd@[j];
                assert(head.take(cmd@.len() as int)[w] == buf@[w]);
                assert(head.take(cmd@.len() as int) != cmd@);
            }
        }
    } else {
        proof {
            assert(cmd@.len() > head.len());
        }
    }
    let ghost body = strip_echo(cmd@, head);
    proof {
        assert(body =~= buf@.subrange(start as int, end as int));
    }
    // Trim whitespace from both ends of the remaining window.
    let mut a: usize = start;
    while a < end && (buf[a] == 32 || buf[a] == 9 || buf[a] == 10 || buf[a] == 13)
        invariant
            start <= a <= end,
            end as int <= buf@.len(),
            body == buf@.subrange(start as int, end as int),
            first_non_ws(body, 0) == first_non_ws(body, a - start),
        decreases end - a,
    {
        proof {
            assert(body[a - start] == buf@[a as int]);
            assert(first_non_ws(body, a - start) == first_non_ws(body, a - start + 1));
        }
        a += 1;
    }
    proof {
        if a < end {
            assert(body[a - start] == buf@[a as int]);
        }
        assert(first_non_ws(body, 0) == a - start);
    }
    let mut b: usize = end;
    while b > a && (buf[b - 1] == 32 || buf[b - 1] == 9 || buf[b - 1] == 10 || buf[b - 1] == 13)
        invariant
            start <= a <= b <= end,
            end as int <= buf@.len(),
            body == buf@.subrange(start as int, end as int),
            first_non_ws(body, 0) == a - start,
            last_non_ws(body, body.len() as int) == last_non_ws(body, b - start),
        decreases b,
    {
        proof {
            assert(body[b - start - 1] == buf@[b - 1]);
            assert(last_non_ws(body, b - start) == last_non_ws(body, b - start - 1));
        }
        b -= 1;
    }
    proof {
        if b > a {
            assert(body[b - start - 1] == buf@[b - 1]);
            assert(last_non_ws(body, b - start) == b - start - 1);
        } else {
            assert(b == a);
            lemma_first_non_ws_high(body, a - start);
            lemma_last_non_ws_low(body, a - start, 0);
            assert(last_non_ws(body, body.len() as int) <= -1);
        }
    }
    let mut out: Vec<u8> = Vec::new();
    let mut t: usize = a;
    while t < b
        invariant
            a <= t <= b,
            b as int <= buf@.len(),
            out@ == buf@.subrange(a as int, t as int),
        decreases b - t,
    {
        out.push(buf[t]);
        assert(out@ =~= buf@.subrange(a as int, t + 1));
        t += 1;
    }
    proof {
        if a < b {
            assert(first_non_ws(body, 0) == a - start);
            assert(last_non_ws(body, body.len() as int) == b - start - 1);
            assert(trim(body) == body.subrange(a - start, b - start));
            assert(body.subrange(a - start, b - start) =~= buf@.subrange(a as int, b as int));
        } else {
            assert(trim(body) =~= Seq::<u8>::empty());
            assert(out@ =~= Seq::<u8>::empty());
        }
        assert(out@ == response_of(cmd@, buf@));
        // The returned text lies before the first prompt, so it holds no
        // prompt fragment of its own.
        assert forall|j: int| !matches_at(out@, prompt(), j) by {
            if matches_at(out@, prompt(), j) {
                lemma_match_bytes(out@, j);
                assert(out@[j] == buf@[a + j]);
                assert(out@[j + 1] == buf@[a + j + 1]);
                assert(a + j + 2 <= b as int);
                assert(b as int <= end as int);
                lemma_bytes_match(buf@, a + j);
                assert(!matches_at(buf@, prompt(), a + j));
            }
        }
    }
    Some(out)
}

proof fn lemma_first_non_ws_high(s: Seq<u8>, a: int)
    requires
        first_non_ws(s, 0) == a,
    ensures
        forall|j: int| 0 <= j < a ==> is_ws(#[trigger] s[j]),
{
    lemma_first_non_ws_high_from(s, 0, a);
}

proof fn lemma_first_non_ws_high_from(s: Seq<u8>, i: int, a: int)
    requires
        0 <= i,
        first_non_ws(s, i) == a,
    ensures
        forall|j: int| i <= j < a ==> is_ws(#[trigger] s[j]),
    decreases s.len() - i,
{
    if i < s.len() && is_ws(s[i]) {
        lemma_first_non_ws_high_from(s, i + 1, a);
    }
}

proof fn lemma_last_non_ws_bound(s: Seq<u8>, i: int)
    requires
        0 <= i,
    ensures
        last_non_ws(s, i) <= i - 1,
    decreases i,
{
    if 0 < i <= s.len() && is_ws(s[i - 1]) {
        lemma_last_non_ws_bound(s, i - 1);
    }
}

proof fn lemma_last_non_ws_low(s: Seq<u8>, i: int, m: int)
    requires
        0 <= m <= i <= s.len(),
        forall|j: int| m <= j < i ==> is_ws(#[trigger] s[j]),
    ensures
        last_non_ws(s, i) <= m - 1,
    decreases i,
{
    if i > m {
        lemma_last_non_ws_low(s, i - 1, m);
    } else {
        lemma_last_non_ws_bound(s, i);
    }
}

} // verus!
