//! The chat side: what the bot answers to commands, how it names senders,
//! and how a long reply is cut into messages Telegram accepts.
use vstd::prelude::*;

use crate::state::{BotMode, ConversationState};
use crate::text::{chars_of, is_white_space, is_whitespace, substring};

verus! {

/// Telegram's limit on the length of a message, in bytes of UTF-8.
pub const TELEGRAM_MAX_LEN: usize = 4096;

/// The number of bytes of `c` in UTF-8.
pub open spec fn utf8_len(c: char) -> nat {
    let u = c as u32;
    if u < 0x80 {
        1
    } else if u < 0x800 {
        2
    } else if u < 0x10000 {
        3
    } else {
        4
    }
}

/// The number of bytes of `s` in UTF-8.
pub open spec fn byte_len(s: Seq<char>) -> nat
    decreases s.len(),
{
    if s.len() == 0 {
        0
    } else {
        byte_len(s.drop_last()) + utf8_len(s.last())
    }
}

/// The number of characters of `s` that make up exactly its first `n`
/// bytes; `None` where the `n`-th byte falls inside a character.
pub open spec fn cut_at(s: Seq<char>, n: nat) -> Option<int> {
    if exists|k: int| 0 <= k <= s.len() && #[trigger] byte_len(s.take(k)) == n {
        Some(choose|k: int| 0 <= k <= s.len() && #[trigger] byte_len(s.take(k)) == n)
    } else {
        None
    }
}

/// The index of the last whitespace character of `s`, if any.
pub open spec fn last_whitespace(s: Seq<char>) -> Option<int>
    decreases s.len(),
{
    if s.len() == 0 {
        None
    } else if is_white_space(s.last()) {
        Some(s.len() - 1)
    } else {
        last_whitespace(s.drop_last())
    }
}

/// `s` without its leading spaces (U+0020).
pub open spec fn strip_spaces(s: Seq<char>) -> Seq<char>
    decreases s.len(),
{
    if s.len() > 0 && s[0] == ' ' {
        strip_spaces(s.drop_first())
    } else {
        s
    }
}

pub proof fn lemma_strip_spaces_len(s: Seq<char>)
    ensures
        strip_spaces(s).len() <= s.len(),
    decreases s.len(),
{
    if s.len() > 0 && s[0] == ' ' {
        lemma_strip_spaces_len(s.drop_first());
    }
}

/// The messages that the rest `rest` of a long reply is cut into, and
/// whether the whole of it was: while more than `TELEGRAM_MAX_LEN` bytes are
/// left, a message ends at the last whitespace within the next
/// `TELEGRAM_MAX_LEN` bytes (which is dropped), or, where there is none,
/// right after those bytes (and the character that follows is dropped);
/// spaces that would begin the next message are dropped. The cutting stops,
/// incomplete, where a cut falls inside a character: before the message
/// where the limit does, after it where the dropped character is longer
/// than one byte (the bot would then stop on a byte index that is no
/// character boundary).
pub open spec fn split_rest(rest: Seq<char>) -> (Seq<Seq<char>>, bool)
    decreases rest.len(),
{
    if rest.len() == 0 {
        (Seq::empty(), true)
    } else if byte_len(rest) <= TELEGRAM_MAX_LEN {
        (seq![rest], true)
    } else {
        match cut_at(rest, TELEGRAM_MAX_LEN as nat) {
            None => (Seq::empty(), false),
            Some(k) => {
                let skip = match last_whitespace(rest.take(k)) {
                    Some(w) => w,
                    None => k,
                };
                if 0 <= skip < rest.len() && utf8_len(rest[skip]) == 1 {
                    proof {
                        lemma_strip_spaces_len(rest.skip(skip + 1));
                    }
                    let more = split_rest(strip_spaces(rest.skip(skip + 1)));
                    (seq![rest.take(skip)] + more.0, more.1)
                } else {
                    (seq![rest.take(skip)], false)
                }
            },
        }
    }
}

/// The messages a reply is sent as, and whether it was sent whole: the
/// reply itself where it fits in one message, else the pieces of `split_rest`.
pub open spec fn split_message(text: Seq<char>) -> (Seq<Seq<char>>, bool) {
    if byte_len(text) <= TELEGRAM_MAX_LEN {
        (seq![text], true)
    } else {
        split_rest(text)
    }
}

proof fn lemma_last_whitespace_in(window: Seq<char>)
    ensures
        last_whitespace(window) matches Some(w) ==> 0 <= w < window.len(),
    decreases window.len(),
{
    if window.len() > 0 {
        lemma_last_whitespace_in(window.drop_last());
    }
}

proof fn lemma_cut_at_some(s: Seq<char>, n: nat)
    ensures
        cut_at(s, n) matches Some(k) ==> 0 <= k <= s.len() && byte_len(s.take(k)) == n,
{
}

/// Every message a reply is cut into fits in one Telegram message.
#[verifier::rlimit(40)]
pub proof fn lemma_split_rest_fits(rest: Seq<char>)
    ensures
        forall|i: int|
            0 <= i < split_rest(rest).0.len() ==> byte_len(#[trigger] split_rest(rest).0[i])
                <= TELEGRAM_MAX_LEN,
    decreases rest.len(),
{
    if rest.len() > 0 && byte_len(rest) > TELEGRAM_MAX_LEN {
        lemma_cut_at_some(rest, TELEGRAM_MAX_LEN as nat);
        if let Some(k) = cut_at(rest, TELEGRAM_MAX_LEN as nat) {
            let window = rest.take(k);
            lemma_last_whitespace_in(window);
            let skip = match last_whitespace(window) {
                Some(w) => w,
                None => k,
            };
            lemma_byte_len_grows(rest, skip, k);
            if 0 <= skip < rest.len() && utf8_len(rest[skip]) == 1 {
                lemma_strip_spaces_len(rest.skip(skip + 1));
                let next = strip_spaces(rest.skip(skip + 1));
                lemma_split_rest_fits(next);
                let more = split_rest(next).0;
                let chunks = seq![rest.take(skip)] + more;
                assert(split_rest(rest).0 == chunks);
                assert forall|i: int| 0 <= i < chunks.len() implies byte_len(#[trigger] chunks[i])
                    <= TELEGRAM_MAX_LEN by {
                    if i > 0 {
                        assert(chunks[i] == more[i - 1]);
                    }
                }
            } else {
                assert(split_rest(rest).0 == seq![rest.take(skip)]);
            }
        }
    }
}

/// Every message a reply is sent as fits in one Telegram message.
pub proof fn lemma_split_message_fits(text: Seq<char>)
    ensures
        forall|i: int|
            0 <= i < split_message(text).0.len() ==> byte_len(#[trigger] split_message(text).0[i])
                <= TELEGRAM_MAX_LEN,
{
    lemma_split_rest_fits(text);
}

/// The text that `chunks` were cut from, where `gaps[i]` was dropped right
/// after `chunks[i]`.
pub open spec fn rejoin(chunks: Seq<Seq<char>>, gaps: Seq<Seq<char>>) -> Seq<char>
    decreases chunks.len(),
{
    if chunks.len() == 0 || gaps.len() == 0 {
        Seq::empty()
    } else {
        chunks[0] + gaps[0] + rejoin(chunks.drop_first(), gaps.drop_first())
    }
}

/// What a cut may drop after `chunk`: nothing, or the character at the cut
/// followed by spaces. That character is whitespace, unless `chunk` takes
/// the whole `TELEGRAM_MAX_LEN` bytes and holds no whitespace at all.
pub open spec fn dropped_at_cut(chunk: Seq<char>, gap: Seq<char>) -> bool {
    gap.len() == 0 || ((forall|j: int| 1 <= j < gap.len() ==> gap[j] == ' ') && (is_white_space(gap[0])
        || (byte_len(chunk) == TELEGRAM_MAX_LEN && forall|j: int|
        0 <= j < chunk.len() ==> !is_white_space(chunk[j]))))
}

/// Whether the messages of `split` come, in order, from the start of `text`
/// (from the whole of it where the split is complete), with `gaps[i]`
/// dropped after the `i`-th message, every gap but the last one non-empty.
pub open spec fn cut_from(
    text: Seq<char>,
    split: (Seq<Seq<char>>, bool),
    gaps: Seq<Seq<char>>,
) -> bool {
    let joined = rejoin(split.0, gaps);
    &&& gaps.len() == split.0.len()
    &&& joined.len() <= text.len()
    &&& joined == text.take(joined.len() as int)
    &&& split.1 ==> joined == text
    &&& forall|i: int| 0 <= i < gaps.len() ==> dropped_at_cut(split.0[i], #[trigger] gaps[i])
    &&& forall|i: int| 0 <= i < gaps.len() - 1 ==> (#[trigger] gaps[i]).len() > 0
}

proof fn lemma_strip_spaces(s: Seq<char>)
    ensures
        strip_spaces(s).len() <= s.len(),
        strip_spaces(s) == s.skip(s.len() - strip_spaces(s).len()),
        forall|j: int| 0 <= j < s.len() - strip_spaces(s).len() ==> s[j] == ' ',
    decreases s.len(),
{
    if s.len() > 0 && s[0] == ' ' {
        let t = s.drop_first();
        lemma_strip_spaces(t);
        let m = t.len() - strip_spaces(t).len();
        assert(t.skip(m) =~= s.skip(m + 1));
        assert forall|j: int| 0 <= j < s.len() - strip_spaces(s).len() implies s[j] == ' ' by {
            if j > 0 {
                assert(s[j] == t[j - 1]);
            }
        }
    } else {
        assert(s.skip(0) =~= s);
    }
}

proof fn lemma_last_whitespace_found(s: Seq<char>)
    ensures
        match last_whitespace(s) {
            Some(w) => 0 <= w < s.len() && is_white_space(s[w]),
            None => forall|j: int| 0 <= j < s.len() ==> !is_white_space(#[trigger] s[j]),
        },
    decreases s.len(),
{
    if s.len() > 0 {
        let t = s.drop_last();
        lemma_last_whitespace_found(t);
        if !is_white_space(s.last()) {
            match last_whitespace(t) {
                Some(w) => {
                    assert(s[w] == t[w]);
                },
                None => {
                    assert forall|j: int| 0 <= j < s.len() implies !is_white_space(#[trigger] s[j]) by {
                        if j < s.len() - 1 {
                            assert(s[j] == t[j]);
                        }
                    }
                },
            }
        }
    }
}

proof fn lemma_rejoin_prepend(c: Seq<char>, g: Seq<char>, more: Seq<Seq<char>>, gs: Seq<Seq<char>>)
    ensures
        rejoin(seq![c] + more, seq![g] + gs) == c + g + rejoin(more, gs),
{
    assert((seq![c] + more).drop_first() =~= more);
    assert((seq![g] + gs).drop_first() =~= gs);
}

/// A message cut from the front of `text`, with `gap` dropped after it,
/// before the messages cut from what is left.
proof fn lemma_cut_from_prepend(
    text: Seq<char>,
    chunk: Seq<char>,
    gap: Seq<char>,
    next: Seq<char>,
    more: (Seq<Seq<char>>, bool),
    gs: Seq<Seq<char>>,
)
    requires
        text == chunk + gap + next,
        gap.len() > 0,
        dropped_at_cut(chunk, gap),
        cut_from(next, more, gs),
    ensures
        cut_from(text, (seq![chunk] + more.0, more.1), seq![gap] + gs),
{
    let chunks = seq![chunk] + more.0;
    let gaps = seq![gap] + gs;
    lemma_rejoin_prepend(chunk, gap, more.0, gs);
    let j = rejoin(more.0, gs);
    let m = (chunk.len() + gap.len()) as int;
    assert(next =~= text.skip(m));
    assert(rejoin(chunks, gaps) =~= text.take(m + j.len() as int));
    if more.1 {
        assert(rejoin(chunks, gaps) =~= text);
    }
    assert forall|i: int| 0 <= i < gaps.len() implies dropped_at_cut(
        chunks[i],
        #[trigger] gaps[i],
    ) by {
        if i > 0 {
            assert(gaps[i] == gs[i - 1]);
            assert(chunks[i] == more.0[i - 1]);
        }
    }
    assert forall|i: int| 0 <= i < gaps.len() - 1 implies (#[trigger] gaps[i]).len() > 0 by {
        if i > 0 {
            assert(gaps[i] == gs[i - 1]);
        }
    }
}

/// A single message, with nothing dropped after it, from the start of `text`.
proof fn lemma_cut_from_one(text: Seq<char>, chunk: Seq<char>, complete: bool)
    requires
        chunk.len() <= text.len(),
        chunk == text.take(chunk.len() as int),
        complete ==> chunk == text,
    ensures
        cut_from(text, (seq![chunk], complete), seq![Seq::<char>::empty()]),
{
    lemma_rejoin_prepend(chunk, Seq::empty(), Seq::empty(), Seq::empty());
    assert(seq![chunk] =~= seq![chunk] + Seq::<Seq<char>>::empty());
    assert(seq![Seq::<char>::empty()] =~= seq![Seq::<char>::empty()] + Seq::<Seq<char>>::empty());
    assert(rejoin(seq![chunk], seq![Seq::<char>::empty()]) =~= chunk);
}

/// The gaps that `split_rest` leaves between the messages of `rest`.
proof fn lemma_split_rest_cut_from(rest: Seq<char>) -> (gaps: Seq<Seq<char>>)
    ensures
        cut_from(rest, split_rest(rest), gaps),
    decreases rest.len(),
{
    assert(rest.take(0) =~= Seq::<char>::empty());
    if rest.len() == 0 {
        assert(rejoin(Seq::empty(), Seq::empty()) =~= rest);
        Seq::empty()
    } else if byte_len(rest) <= TELEGRAM_MAX_LEN {
        assert(rest.take(rest.len() as int) =~= rest);
        lemma_cut_from_one(rest, rest, true);
        seq![Seq::<char>::empty()]
    } else {
        match cut_at(rest, TELEGRAM_MAX_LEN as nat) {
            None => {
                assert(rejoin(Seq::empty(), Seq::empty()) =~= Seq::<char>::empty());
                Seq::empty()
            },
            Some(k) => {
                lemma_cut_at_some(rest, TELEGRAM_MAX_LEN as nat);
                let window = rest.take(k);
                lemma_last_whitespace_in(window);
                lemma_last_whitespace_found(window);
                let skip = match last_whitespace(window) {
                    Some(w) => w,
                    None => k,
                };
                lemma_split_rest_step(rest, k, skip);
                let chunk = rest.take(skip);
                if 0 <= skip < rest.len() && utf8_len(rest[skip]) == 1 {
                    let after = rest.skip(skip + 1);
                    lemma_strip_spaces(after);
                    let next = strip_spaces(after);
                    let gs = lemma_split_rest_cut_from(next);
                    let m = rest.len() - next.len();
                    let gap = rest.subrange(skip, m);
                    assert(rest =~= chunk + gap + next);
                    assert(gap[0] == rest[skip]);
                    assert forall|t: int| 1 <= t < gap.len() implies gap[t] == ' ' by {
                        assert(gap[t] == after[t - 1]);
                    }
                    if last_whitespace(window) is None {
                        assert forall|t: int| 0 <= t < chunk.len() implies !is_white_space(
                            chunk[t],
                        ) by {
                            assert(chunk[t] == window[t]);
                        }
                    } else {
                        assert(rest[skip] == window[skip]);
                    }
                    lemma_cut_from_prepend(rest, chunk, gap, next, split_rest(next), gs);
                    seq![gap] + gs
                } else {
                    lemma_cut_from_one(rest, chunk, false);
                    seq![Seq::<char>::empty()]
                }
            },
        }
    }
}

/// A reply is cut into messages in order, dropping only what a cut may
/// drop: the messages, each followed by what was dropped after it, make up
/// the start of the reply, and the whole of it where it was sent whole.
pub proof fn lemma_split_message_cut_from(text: Seq<char>)
    ensures
        exists|gaps: Seq<Seq<char>>| cut_from(text, split_message(text), gaps),
{
    if byte_len(text) <= TELEGRAM_MAX_LEN {
        assert(text.take(text.len() as int) =~= text);
        lemma_cut_from_one(text, text, true);
        assert(cut_from(text, split_message(text), seq![Seq::<char>::empty()]));
    } else {
        let gaps = lemma_split_rest_cut_from(text);
        assert(cut_from(text, split_message(text), gaps));
    }
}

pub open spec fn strings_view(v: Seq<String>) -> Seq<Seq<char>> {
    v.map_values(|s: String| s@)
}

pub open spec fn prepend(done: Seq<Seq<char>>, rest: (Seq<Seq<char>>, bool)) -> (
    Seq<Seq<char>>,
    bool,
) {
    (done + rest.0, rest.1)
}

proof fn lemma_byte_len_push(s: Seq<char>, c: char)
    ensures
        byte_len(s.push(c)) == byte_len(s) + utf8_len(c),
{
    assert(s.push(c).drop_last() =~= s);
}

/// Every character takes at least one byte.
proof fn lemma_byte_len_grows(s: Seq<char>, j1: int, j2: int)
    requires
        0 <= j1 <= j2 <= s.len(),
    ensures
        byte_len(s.take(j1)) + (j2 - j1) <= byte_len(s.take(j2)),
    decreases j2 - j1,
{
    if j1 < j2 {
        lemma_byte_len_grows(s, j1, j2 - 1);
        assert(s.take(j2).drop_last() =~= s.take(j2 - 1));
    }
}

proof fn lemma_cut_at(s: Seq<char>, n: nat, k: int)
    requires
        0 <= k <= s.len(),
        byte_len(s.take(k)) == n,
    ensures
        cut_at(s, n) == Some(k),
{
    let c = choose|c: int| 0 <= c <= s.len() && #[trigger] byte_len(s.take(c)) == n;
    if c < k {
        lemma_byte_len_grows(s, c, k);
    } else if c > k {
        lemma_byte_len_grows(s, k, c);
    }
}

proof fn lemma_last_whitespace(s: Seq<char>, w: int)
    requires
        0 <= w < s.len(),
        is_white_space(s[w]),
        forall|j: int| w < j < s.len() ==> !is_white_space(#[trigger] s[j]),
    ensures
        last_whitespace(s) == Some(w),
    decreases s.len(),
{
    if w < s.len() - 1 {
        assert(!is_white_space(s[s.len() - 1]));
        lemma_last_whitespace(s.drop_last(), w);
    }
}

proof fn lemma_no_whitespace(s: Seq<char>)
    requires
        forall|j: int| 0 <= j < s.len() ==> !is_white_space(#[trigger] s[j]),
    ensures
        last_whitespace(s) is None,
    decreases s.len(),
{
    if s.len() > 0 {
        assert(!is_white_space(s[s.len() - 1]));
        lemma_no_whitespace(s.drop_last());
    }
}

/// One cut of `split_rest`.
proof fn lemma_split_rest_step(rest: Seq<char>, k: int, skip: int)
    requires
        rest.len() > 0,
        byte_len(rest) > TELEGRAM_MAX_LEN,
        cut_at(rest, TELEGRAM_MAX_LEN as nat) == Some(k),
        skip == match last_whitespace(rest.take(k)) {
            Some(w) => w,
            None => k,
        },
    ensures
        (0 <= skip < rest.len() && utf8_len(rest[skip]) == 1) ==> split_rest(rest) == prepend(
            seq![rest.take(skip)],
            split_rest(strip_spaces(rest.skip(skip + 1))),
        ),
        !(0 <= skip < rest.len() && utf8_len(rest[skip]) == 1) ==> split_rest(rest) == (
            seq![rest.take(skip)],
            false,
        ),
{
}

proof fn lemma_prepend_assoc(a: Seq<Seq<char>>, b: Seq<Seq<char>>, r: (Seq<Seq<char>>, bool))
    ensures
        prepend(a, prepend(b, r)) == prepend(a + b, r),
{
    assert(a + (b + r.0) =~= (a + b) + r.0);
}

fn char_utf8_len(c: char) -> (n: usize)
    ensures
        n == utf8_len(c),
{
    let u = c as u32;
    if u < 0x80 {
        1
    } else if u < 0x800 {
        2
    } else if u < 0x10000 {
        3
    } else {
        4
    }
}

/// From `pos`, the longest run of characters that fits in `TELEGRAM_MAX_LEN`
/// bytes: it ends at `k` and takes `bytes` bytes.
fn fitting_run(chars: &Vec<char>, pos: usize) -> (r: (usize, usize))
    requires
        pos <= chars@.len(),
    ensures
        pos <= r.0 <= chars@.len(),
        r.1 == byte_len(chars@.skip(pos as int).take(r.0 - pos)),
        r.1 <= TELEGRAM_MAX_LEN,
        r.0 < chars@.len() ==> r.1 + utf8_len(chars@[r.0 as int]) > TELEGRAM_MAX_LEN,
{
    let ghost rest = chars@.skip(pos as int);
    let mut k: usize = pos;
    let mut acc: usize = 0;
    assert(rest.take(0) =~= Seq::<char>::empty());
    while k < chars.len() && acc + char_utf8_len(chars[k]) <= TELEGRAM_MAX_LEN
        invariant
            pos <= k <= chars@.len(),
            rest == chars@.skip(pos as int),
            acc == byte_len(rest.take(k - pos)),
            acc <= TELEGRAM_MAX_LEN,
        decreases chars@.len() - k,
    {
        proof {
            assert(rest.take(k + 1 - pos) =~= rest.take(k - pos).push(chars@[k as int]));
            lemma_byte_len_push(rest.take(k - pos), chars@[k as int]);
        }
        acc = acc + char_utf8_len(chars[k]);
        k = k + 1;
    }
    (k, acc)
}

/// Cuts a reply into the messages it is sent as, and tells whether the
/// whole reply was cut (see `split_rest`).
#[verifier::rlimit(50)]
pub fn split_long_message(text: &str) -> (r: (Vec<String>, bool))
    ensures
        strings_view(r.0@) == split_message(text@).0,
        r.1 == split_message(text@).1,
{
    let chars = chars_of(text);
    let n = chars.len();
    let (k0, _) = fitting_run(&chars, 0);
    assert(chars@.skip(0) =~= chars@);
    if k0 == n {
        assert(chars@.take(n as int) =~= chars@);
        let mut out: Vec<String> = Vec::new();
        out.push(String::from_str(text));
        assert(strings_view(out@) =~= seq![text@]);
        return (out, true);
    }
    proof {
        lemma_byte_len_grows(chars@, k0 + 1, n as int);
        assert(chars@.take(k0 + 1) =~= chars@.take(k0 as int).push(chars@[k0 as int]));
        lemma_byte_len_push(chars@.take(k0 as int), chars@[k0 as int]);
        assert(chars@.take(n as int) =~= chars@);
    }
    let mut out: Vec<String> = Vec::new();
    let mut pos: usize = 0;
    assert(strings_view(out@) + split_rest(chars@).0 =~= split_rest(chars@).0);
    loop
        invariant
            pos <= n,
            n == chars@.len(),
            chars@ == text@,
            split_message(text@) == prepend(strings_view(out@), split_rest(chars@.skip(pos as int))),
        decreases n - pos,
    {
        let ghost rest = chars@.skip(pos as int);
        if pos == n {
            assert(rest.len() == 0);
            assert(strings_view(out@) + Seq::<Seq<char>>::empty() =~= strings_view(out@));
            return (out, true);
        }
        let (k, acc) = fitting_run(&chars, pos);
        if k == n {
            let chunk = substring(text, pos, n);
            proof {
                assert(rest.take(n - pos) =~= rest);
                assert(chunk@ =~= rest);
            }
            let ghost before = out@;
            out.push(chunk);
            assert(strings_view(out@) =~= strings_view(before) + seq![rest]);
            return (out, true);
        }
        proof {
            // More than a message's worth of bytes is left.
            assert(rest.take(k + 1 - pos) =~= rest.take(k - pos).push(chars@[k as int]));
            lemma_byte_len_push(rest.take(k - pos), chars@[k as int]);
            lemma_byte_len_grows(rest, k + 1 - pos, rest.len() as int);
            assert(rest.take(rest.len() as int) =~= rest);
        }
        if acc != TELEGRAM_MAX_LEN {
            proof {
                assert forall|j: int| 0 <= j <= rest.len() implies #[trigger] byte_len(rest.take(j))
                    != TELEGRAM_MAX_LEN by {
                    if j <= k - pos {
                        lemma_byte_len_grows(rest, j, k - pos);
                    } else {
                        lemma_byte_len_grows(rest, k + 1 - pos, j);
                    }
                }
                assert(strings_view(out@) + Seq::<Seq<char>>::empty() =~= strings_view(out@));
            }
            return (out, false);
        }
        proof {
            lemma_cut_at(rest, TELEGRAM_MAX_LEN as nat, k - pos);
        }
        let skip = cut_point(&chars, pos, k);
        proof {
            lemma_split_rest_step(rest, k - pos, skip - pos);
            assert(rest[skip - pos] == chars@[skip as int]);
        }
        let chunk = substring(text, pos, skip);
        assert(chunk@ =~= rest.take(skip - pos));
        let ghost before = out@;
        out.push(chunk);
        assert(strings_view(out@) =~= strings_view(before) + seq![rest.take(skip - pos)]);
        if char_utf8_len(chars[skip]) != 1 {
            return (out, false);
        }
        assert(rest.skip(skip - pos + 1) =~= chars@.skip(skip + 1));
        let next = skip_spaces(&chars, skip + 1);
        proof {
            lemma_prepend_assoc(
                strings_view(before),
                seq![rest.take(skip - pos)],
                split_rest(chars@.skip(next as int)),
            );
        }
        pos = next;
    }
}

/// Where the message from `pos` ends when it is cut at `k`: at the last
/// whitespace before `k`, else at `k`.
fn cut_point(chars: &Vec<char>, pos: usize, k: usize) -> (skip: usize)
    requires
        pos <= k < chars@.len(),
    ensures
        pos <= skip <= k,
        skip == match last_whitespace(chars@.skip(pos as int).take(k - pos)) {
            Some(w) => pos + w,
            None => k as int,
        },
{
    let ghost window = chars@.skip(pos as int).take(k - pos);
    let mut w: usize = k;
    while w > pos
        invariant
            pos <= w <= k,
            k < chars@.len(),
            window == chars@.skip(pos as int).take(k - pos),
            window.len() == k - pos,
            forall|j: int| w <= j < k ==> !is_white_space(#[trigger] chars@[j]),
        decreases w,
    {
        if is_whitespace(chars[w - 1]) {
            proof {
                assert forall|j: int| w - 1 - pos < j < window.len() implies !is_white_space(
                    #[trigger] window[j],
                ) by {
                    assert(window[j] == chars@[pos + j]);
                }
                assert(window[w - 1 - pos] == chars@[w - 1]);
                lemma_last_whitespace(window, w - 1 - pos);
            }
            return w - 1;
        }
        w = w - 1;
    }
    proof {
        assert forall|i: int| 0 <= i < window.len() implies !is_white_space(#[trigger] window[i]) by {
            assert(window[i] == chars@[pos + i]);
        }
        lemma_no_whitespace(window);
    }
    k
}

/// The first position from `from` that holds no space.
fn skip_spaces(chars: &Vec<char>, from: usize) -> (next: usize)
    requires
        from <= chars@.len(),
    ensures
        from <= next <= chars@.len(),
        chars@.skip(next as int) == strip_spaces(chars@.skip(from as int)),
{
    let n = chars.len();
    let mut next: usize = from;
    while next < n && chars[next] == ' '
        invariant
            from <= next <= n,
            n == chars@.len(),
            strip_spaces(chars@.skip(from as int)) == strip_spaces(chars@.skip(next as int)),
        decreases n - next,
    {
        assert(chars@.skip(next as int).drop_first() =~= chars@.skip(next + 1));
        next = next + 1;
    }
    next
}

/// The reply to an incoming text.
pub enum TextReply {
    /// Send these words back (a command was carried out).
    Say(String),
    /// Pass the text to the orchestrator and answer with its reply.
    Answer,
    /// Do nothing.
    Ignore,
}

pub enum TextReplyView {
    Say(Seq<char>),
    Answer,
    Ignore,
}

impl View for TextReply {
    type V = TextReplyView;

    open spec fn view(&self) -> TextReplyView {
        match self {
            TextReply::Say(s) => TextReplyView::Say(s@),
            TextReply::Answer => TextReplyView::Answer,
            TextReply::Ignore => TextReplyView::Ignore,
        }
    }
}

pub open spec fn transcribe_notice() -> Seq<char> {
    "Transcribe-only mode on. Voice messages will be echoed as text without acting on them. Send /respond to switch back."@
}

pub open spec fn respond_notice() -> Seq<char> {
    "Respond mode on. Voice messages will be transcribed and acted on."@
}

/// Handles an incoming text: `/transcribe` and `/respond` switch the chat's
/// mode and are acknowledged; any other text is answered in respond mode
/// and ignored in transcribe-only mode.
pub fn on_text(state: &mut ConversationState, text: &str) -> (reply: TextReply)
    ensures
        final(state).history() == old(state).history(),
        final(state).family_id == old(state).family_id,
        final(state).is_persisted() == old(state).is_persisted(),
        if text@ == "/transcribe"@ {
            final(state).mode == BotMode::TranscribeOnly && reply@ == TextReplyView::Say(
                transcribe_notice(),
            )
        } else if text@ == "/respond"@ {
            final(state).mode == BotMode::Respond && reply@ == TextReplyView::Say(respond_notice())
        } else {
            &&& final(state).mode == old(state).mode
            &&& reply@ == if old(state).mode == BotMode::Respond {
                TextReplyView::Answer
            } else {
                TextReplyView::Ignore
            }
        },
{
    let t = String::from_str(text);
    if t == String::from_str("/transcribe") {
        state.mode = BotMode::TranscribeOnly;
        TextReply::Say(
            String::from_str(
                "Transcribe-only mode on. Voice messages will be echoed as text without acting on them. Send /respond to switch back.",
            ),
        )
    } else if t == String::from_str("/respond") {
        state.mode = BotMode::Respond;
        TextReply::Say(
            String::from_str("Respond mode on. Voice messages will be transcribed and acted on."),
        )
    } else if state.mode == BotMode::Respond {
        TextReply::Answer
    } else {
        TextReply::Ignore
    }
}

/// The name a sender goes by: the username, else the first name, else "unknown".
pub fn sender_name(username: Option<&str>, first_name: Option<&str>) -> (name: String)
    ensures
        name@ == match username {
            Some(u) => u@,
            None => match first_name {
                Some(f) => f@,
                None => "unknown"@,
            },
        },
{
    match username {
        Some(u) => String::from_str(u),
        None => match first_name {
            Some(f) => String::from_str(f),
            None => String::from_str("unknown"),
        },
    }
}

/// The echo of a transcribed voice message.
pub fn voice_echo(sender: &str, transcription: &str) -> (echo: String)
    ensures
        echo@ == "\u{1f3a4} "@ + sender@ + ": "@ + transcription@,
{
    let mut echo = String::from_str("\u{1f3a4} ");
    echo.append(sender);
    echo.append(": ");
    echo.append(transcription);
    echo
}

/// Whether a transcribed voice message is passed on to the orchestrator.
pub fn answers_voice(state: &ConversationState) -> (r: bool)
    ensures
        r == (state.mode == BotMode::Respond),
{
    state.mode == BotMode::Respond
}

/// The words sent when the orchestrator fails.
pub fn failure_notice() -> (s: String)
    ensures
        s@ == "Sorry, something went wrong."@,
{
    String::from_str("Sorry, something went wrong.")
}

/// The words sent when a voice message cannot be transcribed.
pub fn transcription_failure_notice() -> (s: String)
    ensures
        s@ == "Could not transcribe voice message."@,
{
    String::from_str("Could not transcribe voice message.")
}

} // verus!
