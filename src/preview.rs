//! The text buffer of the preview: each message as a header line, a blank
//! line, its text line by line, and a blank line.

use vstd::prelude::*;

use crate::scan::{DisplayMessage, MessageRole};

verus! {

/// How chrono writes an instant (milliseconds since the Unix epoch) in UTC as
/// `%Y-%m-%d %H:%M:%S`.
pub uninterp spec fn timestamp_text(ms: i64) -> Seq<char>;

/// `line` without one trailing carriage return.
pub open spec fn without_cr(line: Seq<char>) -> Seq<char> {
    if line.len() > 0 && line.last() == '\r' {
        line.drop_last()
    } else {
        line
    }
}

/// The lines of `s`, continuing a line that holds `cur` so far: each `\n`
/// ends a line (and a `\r` just before it is dropped); a last line without
/// `\n` counts when it is not empty.
pub open spec fn lines_from(s: Seq<char>, cur: Seq<char>) -> Seq<Seq<char>>
    decreases s.len(),
{
    if s.len() == 0 {
        if cur.len() == 0 {
            Seq::empty()
        } else {
            seq![cur]
        }
    } else if s[0] == '\n' {
        seq![without_cr(cur)] + lines_from(s.drop_first(), Seq::empty())
    } else {
        lines_from(s.drop_first(), cur.push(s[0]))
    }
}

/// What `str::lines` yields for a text.
pub open spec fn lines_of(s: Seq<char>) -> Seq<Seq<char>> {
    lines_from(s, Seq::empty())
}

/// Relies on chrono's `DateTime::from_timestamp_millis` and `format`: the
/// result depends on the instant alone.
#[verifier::external_body]
pub(crate) fn format_timestamp(ms: i64) -> (r: String)
    ensures
        r@ == timestamp_text(ms),
{
    match chrono::DateTime::from_timestamp_millis(ms) {
        Some(d) => d.format("%Y-%m-%d %H:%M:%S").to_string(),
        None => String::new(),
    }
}

/// Relies on `str::lines`: the text split after each `\n`, each line
/// without its `\n` or `\r\n`, and no empty line after a final `\n`.
#[verifier::external_body]
pub(crate) fn split_lines(s: &str) -> (r: Vec<String>)
    ensures
        r@.map_values(|x: String| x@) == lines_of(s@),
{
    s.lines().map(String::from).collect()
}

/// The tag in front of a message's header line.
pub open spec fn role_label(role: MessageRole) -> Seq<char> {
    match role {
        MessageRole::User => "[User]"@,
        MessageRole::Assistant => "[Assistant]"@,
        MessageRole::System => "[System]"@,
    }
}

/// The preview lines of one message.
pub open spec fn message_lines(m: (MessageRole, i64, Seq<char>)) -> Seq<Seq<char>> {
    seq![role_label(m.0) + seq![' '] + timestamp_text(m.1), Seq::empty()] + lines_of(m.2) + seq![
        Seq::empty(),
    ]
}

/// The preview lines of the messages, in order.
pub open spec fn preview_text(msgs: Seq<(MessageRole, i64, Seq<char>)>) -> Seq<Seq<char>>
    decreases msgs.len(),
{
    if msgs.len() == 0 {
        Seq::empty()
    } else {
        preview_text(msgs.drop_last()) + message_lines(msgs.last())
    }
}

fn role_tag(role: MessageRole) -> (r: &'static str)
    ensures
        r@ == role_label(role),
{
    match role {
        MessageRole::User => "[User]",
        MessageRole::Assistant => "[Assistant]",
        MessageRole::System => "[System]",
    }
}

/// Lays the messages out as the lines of the preview buffer.
pub fn preview_lines(messages: &Vec<DisplayMessage>) -> (r: Vec<String>)
    ensures
        r@.map_values(|x: String| x@) == preview_text(
            messages@.map_values(|m: DisplayMessage| m@),
        ),
{
    let ghost msgs = messages@.map_values(|m: DisplayMessage| m@);
    let mut out: Vec<String> = Vec::new();
    let mut i: usize = 0;
    while i < messages.len()
        invariant
            i <= messages@.len(),
            msgs == messages@.map_values(|m: DisplayMessage| m@),
            out@.map_values(|x: String| x@) == preview_text(msgs.take(i as int)),
        decreases messages@.len() - i,
    {
        let ghost before = out@.map_values(|x: String| x@);
        let msg = &messages[i];
        let mut header = String::from_str(role_tag(msg.role));
        proof {
            reveal_strlit(" ");
        }
        header.append(" ");
        assert(" "@ =~= seq![' ']);
        let stamp = format_timestamp(msg.timestamp);
        header.append(stamp.as_str());
        let ghost head = header@;
        assert(head == role_label(msg.role) + seq![' '] + timestamp_text(msg.timestamp));
        out.push(header);
        assert(out@.map_values(|x: String| x@) =~= before.push(head));
        out.push(String::new());
        assert(out@.map_values(|x: String| x@) =~= before.push(head).push(Seq::<char>::empty()));
        let body = split_lines(msg.content.as_str());
        assert(out@.map_values(|x: String| x@) =~= before + seq![head, Seq::<char>::empty()]
            + body@.map_values(|x: String| x@).take(0));
        let mut j: usize = 0;
        while j < body.len()
            invariant
                j <= body@.len(),
                out@.map_values(|x: String| x@) == before + seq![
                    role_label(msg.role) + seq![' '] + timestamp_text(msg.timestamp),
                    Seq::<char>::empty(),
                ] + body@.map_values(|x: String| x@).take(j as int),
            decreases body@.len() - j,
        {
            let ghost prev = out@.map_values(|x: String| x@);
            let line = body[j].clone();
            out.push(line);
            assert(out@.map_values(|x: String| x@) =~= prev.push(body@[j as int]@));
            assert(out@.map_values(|x: String| x@) =~= before + seq![
                role_label(msg.role) + seq![' '] + timestamp_text(msg.timestamp),
                Seq::<char>::empty(),
            ] + body@.map_values(|x: String| x@).take(j as int + 1));
            j = j + 1;
        }
        let ghost mid = out@.map_values(|x: String| x@);
        out.push(String::new());
        assert(out@.map_values(|x: String| x@) =~= mid.push(Seq::<char>::empty()));
        proof {
            assert(body@.map_values(|x: String| x@).take(body@.len() as int) =~= body@.map_values(
                |x: String| x@,
            ));
            assert(msgs.take(i as int + 1).drop_last() =~= msgs.take(i as int));
            assert(msgs.take(i as int + 1).last() == msg@);
            assert(out@.map_values(|x: String| x@) =~= preview_text(msgs.take(i as int + 1)));
        }
        i = i + 1;
    }
    assert(msgs.take(messages@.len() as int) =~= msgs);
    out
}

} // verus!
