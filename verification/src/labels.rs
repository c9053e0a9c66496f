//! The short texts that stand beside a video: how long it runs and how long
//! ago it came out.

use vstd::prelude::*;
use vstd::string::*;
use crate::text::{chars_of, decimal, figure, push_decimal, push_two_figures, string_of};

verus! {

/// A length of `length` seconds as `h:mm:ss`, or `mm:ss` below one hour.
pub open spec fn length_text(length: u64) -> Seq<char> {
    let hours = (length / 3600) as nat;
    let minutes = ((length / 60) % 60) as nat;
    let seconds = (length % 60) as nat;
    let clock = seq![
        figure(minutes / 10),
        figure(minutes % 10),
        ':',
        figure(seconds / 10),
        figure(seconds % 10),
    ];
    if hours == 0 {
        clock
    } else {
        decimal(hours).push(':') + clock
    }
}

/// Writes out how long a video of `length` seconds runs.
pub fn length_label(length: u64) -> (text: String)
    ensures
        text@ == length_text(length),
{
    let hours = length / 3600;
    let minutes = (length / 60) % 60;
    let seconds = length % 60;
    let mut text = String::new();
    if hours != 0 {
        push_decimal(&mut text, hours);
        text.push(':');
    }
    let ghost head = text@;
    push_two_figures(&mut text, minutes);
    text.push(':');
    push_two_figures(&mut text, seconds);
    assert(text@ =~= head + seq![
        figure(minutes as nat / 10),
        figure(minutes as nat % 10),
        ':',
        figure(seconds as nat / 10),
        figure(seconds as nat % 10),
    ]);
    assert(hours == 0 ==> head =~= Seq::<char>::empty());
    assert(hours != 0 ==> head =~= decimal(hours as nat).push(':'));
    text
}

/// White space, as Unicode defines it.
pub open spec fn is_space(c: char) -> bool {
    let n = c as u32;
    ||| 0x09 <= n <= 0x0D
    ||| n == 0x20
    ||| n == 0x85
    ||| n == 0xA0
    ||| n == 0x1680
    ||| 0x2000 <= n <= 0x200A
    ||| n == 0x2028
    ||| n == 0x2029
    ||| n == 0x202F
    ||| n == 0x205F
    ||| n == 0x3000
}

/// Whether `c` is white space.
pub fn is_white(c: char) -> (b: bool)
    ensures
        b == is_space(c),
{
    let n = c as u32;
    (0x09 <= n && n <= 0x0D) || n == 0x20 || n == 0x85 || n == 0xA0 || n == 0x1680 || (0x2000 <= n
        && n <= 0x200A) || n == 0x2028 || n == 0x2029 || n == 0x202F || n == 0x205F || n == 0x3000
}

/// How many characters of white space `text` starts with.
pub open spec fn leading_space(text: Seq<char>) -> nat
    decreases text.len(),
{
    if text.len() > 0 && is_space(text[0]) {
        1 + leading_space(text.drop_first())
    } else {
        0
    }
}

/// How many characters `text` starts with that are not white space.
pub open spec fn leading_word(text: Seq<char>) -> nat
    decreases text.len(),
{
    if text.len() > 0 && !is_space(text[0]) {
        1 + leading_word(text.drop_first())
    } else {
        0
    }
}

/// The first word of `text`: what stands between the white space it starts
/// with and the next white space. Empty where `text` holds no word.
pub open spec fn first_word_of(text: Seq<char>) -> Seq<char> {
    let rest = text.skip(leading_space(text) as int);
    rest.take(leading_word(rest) as int)
}

proof fn lemma_leading_space(text: Seq<char>, n: nat)
    requires
        n <= text.len(),
        forall|j: int| 0 <= j < n ==> is_space(#[trigger] text[j]),
        n == text.len() || !is_space(text[n as int]),
    ensures
        leading_space(text) == n,
    decreases n,
{
    if n > 0 {
        let rest = text.drop_first();
        assert forall|j: int| 0 <= j < n - 1 implies is_space(#[trigger] rest[j]) by {
            assert(rest[j] == text[j + 1]);
        }
        lemma_leading_space(rest, (n - 1) as nat);
    }
}

proof fn lemma_leading_word(text: Seq<char>, n: nat)
    requires
        n <= text.len(),
        forall|j: int| 0 <= j < n ==> !is_space(#[trigger] text[j]),
        n == text.len() || is_space(text[n as int]),
    ensures
        leading_word(text) == n,
    decreases n,
{
    if n > 0 {
        let rest = text.drop_first();
        assert forall|j: int| 0 <= j < n - 1 implies !is_space(#[trigger] rest[j]) by {
            assert(rest[j] == text[j + 1]);
        }
        lemma_leading_word(rest, (n - 1) as nat);
    }
}

/// The first word of `text`.
pub fn first_word(text: &str) -> (word: String)
    ensures
        word@ == first_word_of(text@),
{
    let chars = chars_of(text);
    let mut start: usize = 0;
    while start < chars.len() && is_white(chars[start])
        invariant
            start <= chars.len(),
            forall|j: int| 0 <= j < start ==> is_space(#[trigger] chars@[j]),
        decreases chars.len() - start,
    {
        start = start + 1;
    }
    let mut end: usize = start;
    while end < chars.len() && !is_white(chars[end])
        invariant
            start <= end <= chars.len(),
            forall|j: int| start <= j < end ==> !is_space(#[trigger] chars@[j]),
        decreases chars.len() - end,
    {
        end = end + 1;
    }
    proof {
        lemma_leading_space(chars@, start as nat);
        let rest = chars@.skip(start as int);
        assert forall|j: int| 0 <= j < end - start implies !is_space(#[trigger] rest[j]) by {
            assert(rest[j] == chars@[start + j]);
        }
        lemma_leading_word(rest, (end - start) as nat);
        assert(rest.take(end - start) =~= chars@.subrange(start as int, end as int));
    }
    string_of(&chars, start, end)
}


/// The text that `humantime` writes for a span of `secs` seconds and `nanos`
/// nanoseconds: its units from the largest down, with white space between
/// them.
pub uninterp spec fn humantime_text(secs: u64, nanos: u32) -> Seq<char>;

/// Calls `humantime::format_duration` on the span of `secs` seconds and
/// `nanos` nanoseconds and collects what it displays. Nothing is claimed of
/// the text but that it depends on the span alone.
#[verifier::external_body]
fn format_duration(secs: u64, nanos: u32) -> (text: String)
    requires
        nanos < 1_000_000_000,
    ensures
        text@ == humantime_text(secs, nanos),
{
    humantime::format_duration(std::time::Duration::new(secs, nanos)).to_string()
}

/// A span in its largest unit alone: the first word of what `humantime`
/// writes for it.
pub open spec fn rel_time_text(secs: u64, nanos: u32) -> Seq<char> {
    first_word_of(humantime_text(secs, nanos))
}

/// Writes the span of `secs` seconds and `nanos` nanoseconds in its largest
/// unit alone.
pub fn format_rel_time(secs: u64, nanos: u32) -> (text: String)
    requires
        nanos < 1_000_000_000,
    ensures
        text@ == rel_time_text(secs, nanos),
{
    let whole = format_duration(secs, nanos);
    first_word(whole.as_str())
}

/// Whether the second `published` lies before the moment `now_secs` seconds
/// and `now_nanos` nanoseconds, all counted from the same start.
pub open spec fn is_past(now_secs: u64, now_nanos: u32, published: u64) -> bool {
    now_secs > published || (now_secs == published && now_nanos > 0)
}

/// How far the second `published` lies from now, in words: `… ago` for the
/// past, `in …` for now and the future.
pub open spec fn published_text(now_secs: u64, now_nanos: u32, published: u64) -> Seq<char> {
    if is_past(now_secs, now_nanos, published) {
        rel_time_text((now_secs - published) as u64, now_nanos) + " ago"@
    } else if now_nanos == 0 {
        "in "@ + rel_time_text((published - now_secs) as u64, 0)
    } else {
        "in "@ + rel_time_text(
            (published - now_secs - 1) as u64,
            (1_000_000_000 - now_nanos) as u32,
        )
    }
}

/// Writes out when a video came out, seen from now. All three times count
/// from the same start; `now_nanos` is the part of now below one second.
pub fn published_label(now_secs: u64, now_nanos: u32, published: u64) -> (text: String)
    requires
        now_nanos < 1_000_000_000,
    ensures
        text@ == published_text(now_secs, now_nanos, published),
{
    if now_secs > published || (now_secs == published && now_nanos > 0) {
        let mut text = format_rel_time(now_secs - published, now_nanos);
        text.append(" ago");
        text
    } else {
        let span = if now_nanos == 0 {
            format_rel_time(published - now_secs, 0)
        } else {
            format_rel_time(published - now_secs - 1, 1_000_000_000 - now_nanos)
        };
        let mut text = "in ".to_owned();
        text.append(span.as_str());
        text
    }
}

} // verus!
