//! Messages on a stream: each is one line.

use vstd::prelude::*;

use crate::text::trim;

verus! {

/// What stands on the stream for a message.
pub open spec fn frame(payload: Seq<char>) -> Seq<char> {
    payload.push('\n')
}

/// What stands on the stream for some messages.
pub open spec fn frames(payloads: Seq<Seq<char>>) -> Seq<char>
    decreases payloads.len(),
{
    if payloads.len() == 0 {
        seq![]
    } else {
        frame(payloads[0]) + frames(payloads.drop_first())
    }
}

/// How long the first line is, with the newline that ends it.
pub open spec fn line_len(s: Seq<char>) -> nat
    decreases s.len(),
{
    if s.len() == 0 {
        0
    } else if s[0] == '\n' {
        1
    } else {
        1 + line_len(s.drop_first())
    }
}

/// The lines of a stream, each with the newline that ends it.
pub open spec fn lines(s: Seq<char>) -> Seq<Seq<char>>
    decreases s.len(),
{
    if s.len() == 0 {
        seq![]
    } else {
        proof {
            lemma_line_len(s);
        }
        seq![s.take(line_len(s) as int)] + lines(s.skip(line_len(s) as int))
    }
}

/// A line is never empty, and ends with the stream at the latest.
pub proof fn lemma_line_len(s: Seq<char>)
    ensures
        line_len(s) <= s.len(),
        s.len() > 0 ==> line_len(s) > 0,
    decreases s.len(),
{
    if s.len() > 0 && s[0] != '\n' {
        lemma_line_len(s.drop_first());
    }
}

/// The first newline ends the first line.
proof fn lemma_frame_is_line(payload: Seq<char>, rest: Seq<char>)
    requires
        !payload.contains('\n'),
    ensures
        line_len(frame(payload) + rest) == frame(payload).len(),
    decreases payload.len(),
{
    let s = frame(payload) + rest;
    if payload.len() > 0 {
        assert(payload[0] != '\n');
        let tail = payload.drop_first();
        assert(!tail.contains('\n')) by {
            if tail.contains('\n') {
                let i = choose|i: int| 0 <= i < tail.len() && tail[i] == '\n';
                assert(payload[i + 1] == '\n');
            }
        }
        assert(s.drop_first() =~= frame(tail) + rest);
        assert(s[0] == payload[0]);
        lemma_frame_is_line(tail, rest);
    } else {
        assert(s[0] == '\n');
    }
}

/// What is read line by line is what was written message by message, as long as no message
/// holds a newline.
pub proof fn law_lines_are_the_messages(payloads: Seq<Seq<char>>)
    requires
        forall|i: int| 0 <= i < payloads.len() ==> !(#[trigger] payloads[i]).contains('\n'),
    ensures
        lines(frames(payloads)) == payloads.map_values(|p: Seq<char>| p.push('\n')),
    decreases payloads.len(),
{
    let s = frames(payloads);
    if payloads.len() > 0 {
        let first = frame(payloads[0]);
        let tail = payloads.drop_first();
        lemma_frame_is_line(payloads[0], frames(tail));
        assert forall|i: int| 0 <= i < tail.len() implies !(#[trigger] tail[i]).contains(
            '\n',
        ) by {
            assert(tail[i] == payloads[i + 1]);
        }
        law_lines_are_the_messages(tail);
        assert(s.take(first.len() as int) =~= first);
        assert(s.skip(first.len() as int) =~= frames(tail));
        assert(lines(s) =~= payloads.map_values(|p: Seq<char>| p.push('\n')));
    } else {
        assert(lines(s) =~= payloads.map_values(|p: Seq<char>| p.push('\n')));
    }
}

/// Puts a message on a line of its own.
pub fn framed(payload: String) -> (line: String)
    ensures
        line@ == frame(payload@),
{
    let mut line = payload;
    line.push('\n');
    line
}

/// Why no message came.
#[derive(Debug, Clone, Copy, PartialEq, Eq, Structural)]
pub enum ReceiveError {
    /// The stream has ended.
    Lost,
    /// The line is no message.
    BrokenProtocol,
}

/// What comes of reading a line: so many bytes were read, and the line was understood as
/// this message, if as any.
pub fn received<M>(bytes_read: usize, parsed: Option<M>) -> (r: Result<M, ReceiveError>)
    ensures
        r == (if bytes_read == 0 {
            Err(ReceiveError::Lost)
        } else {
            match parsed {
                Some(msg) => Ok(msg),
                None => Err(ReceiveError::BrokenProtocol),
            }
        }),
{
    if bytes_read == 0 {
        return Err(ReceiveError::Lost);
    }
    match parsed {
        Some(msg) => Ok(msg),
        None => Err(ReceiveError::BrokenProtocol),
    }
}

/// What comes after reading a line from a player.
#[derive(Debug, Clone, Copy, PartialEq, Eq)]
pub enum LineStep<M> {
    /// The stream has ended.
    End,
    /// The line is passed over, and the next one is read.
    Skip,
    /// The line is dealt with.
    Handle(M),
}

/// What comes after reading a line from a player: so many bytes were read, and the line was
/// understood as this message, if as any.  A player says much that is of no concern, so a
/// line that is no message is passed over.
pub fn after_mpv_line<M>(bytes_read: usize, parsed: Option<M>) -> (next: LineStep<M>)
    ensures
        next == (if bytes_read == 0 {
            LineStep::End
        } else {
            match parsed {
                Some(msg) => LineStep::Handle(msg),
                None => LineStep::Skip,
            }
        }),
{
    if bytes_read == 0 {
        return LineStep::End;
    }
    match parsed {
        Some(msg) => LineStep::Handle(msg),
        None => LineStep::Skip,
    }
}

/// The complaint about a line that is no message, by the one who broke the protocol.
pub fn protocol_complaint(who: &str, line: &str) -> (text: String)
    ensures
        text@ == who@ + " broke protocol: \""@ + crate::text::trimmed(line@) + "\""@,
{
    let mut text = who.to_string();
    text.append(" broke protocol: \"");
    text.append(trim(line));
    text.append("\"");
    text
}

/// A message stands on its line as it is, and the line ends with it.
pub proof fn law_line_is_the_message_and_a_newline(payload: String, line: String)
    requires
        call_ensures(framed, (payload,), line),
    ensures
        line@.len() == payload@.len() + 1,
        line@.drop_last() == payload@,
        line@.last() == '\n',
        line@ == frame(payload@),
{
    assert(line@.drop_last() =~= payload@);
}

/// A message is received exactly if some bytes were read and the line was understood; it is
/// the one that the line was understood as.  An ended stream is told from a broken protocol.
pub proof fn law_message_is_received_as_it_was_understood<M>(
    bytes_read: usize,
    parsed: Option<M>,
    r: Result<M, ReceiveError>,
)
    requires
        call_ensures(received::<M>, (bytes_read, parsed), r),
    ensures
        r is Ok <==> bytes_read > 0 && parsed is Some,
        r is Ok ==> parsed == Some(r->Ok_0),
        r is Err ==> (r->Err_0 is Lost <==> bytes_read == 0),
{
}

/// A line of a player is dealt with exactly if it was understood, the stream's end ends it,
/// and anything else is passed over.
pub proof fn law_player_is_read_to_the_end<M>(
    bytes_read: usize,
    parsed: Option<M>,
    next: LineStep<M>,
)
    requires
        call_ensures(after_mpv_line::<M>, (bytes_read, parsed), next),
    ensures
        next is End <==> bytes_read == 0,
        next is Handle <==> bytes_read > 0 && parsed is Some,
        next is Handle ==> parsed == Some(next->Handle_0),
{
}

/// A complaint begins with who broke the protocol and ends with the quoted line, trimmed.
pub proof fn law_complaint_quotes_the_line(who: &str, line: &str, quoted: &str, text: String)
    requires
        call_ensures(protocol_complaint, (who, line), text),
        call_ensures(trim, (line,), quoted),
    ensures
        text@ == who@ + " broke protocol: \""@ + quoted@ + "\""@,
{
}

} // verus!
