//! Server-sent events: the framing of a streamed answer.
use crate::text::{
    decode_lossy, find, find_in, lemma_find, lemma_find_longer, lines, lines_of, lossy_text,
    strip_prefix, texts, without_prefix,
};
use vstd::prelude::*;

verus! {

/// The payloads among the lines of an event: what stands behind `data: `.
pub open spec fn payloads_among(lines: Seq<Seq<char>>) -> Seq<Seq<char>>
    decreases lines.len(),
{
    if lines.len() == 0 {
        Seq::empty()
    } else {
        match without_prefix(lines.last(), "data: "@) {
            Some(data) => payloads_among(lines.drop_last()).push(data),
            None => payloads_among(lines.drop_last()),
        }
    }
}

/// The payloads of an event.
pub open spec fn payloads_of(event: Seq<char>) -> Seq<Seq<char>> {
    payloads_among(lines_of(event))
}

/// What parts an event from the next.
pub open spec fn gap() -> Seq<char> {
    seq!['\n', '\n']
}

/// The payloads of all events in a text that are complete.
pub open spec fn payloads_in(text: Seq<char>) -> Seq<Seq<char>>
    decreases text.len(),
{
    match find_in(text, gap()) {
        Some(at) if 0 <= at && at + 2 <= text.len() => payloads_of(text.take(at)) + payloads_in(
            text.skip(at + 2),
        ),
        _ => Seq::empty(),
    }
}

/// What stands behind the last complete event of a text.
pub open spec fn rest_of(text: Seq<char>) -> Seq<char>
    decreases text.len(),
{
    match find_in(text, gap()) {
        Some(at) if 0 <= at && at + 2 <= text.len() => rest_of(text.skip(at + 2)),
        _ => text,
    }
}

fn push_payloads(out: &mut Vec<String>, event: &str)
    ensures
        texts(final(out)@) == texts(old(out)@) + payloads_of(event@),
{
    let ghost start = texts(out@);
    let list = lines(event);
    let ghost all = lines_of(event@);
    let mut i: usize = 0;
    assert(all.take(0) =~= Seq::empty());
    assert(start + payloads_among(all.take(0)) =~= start);
    assert(all.len() == list@.len());
    while i < list.len()
        invariant
            i <= list@.len() == all.len(),
            all == lines_of(event@),
            texts(list@) == all,
            start == texts(old(out)@),
            texts(out@) == start + payloads_among(all.take(i as int)),
        decreases list@.len() - i,
    {
        let ghost before = texts(out@);
        assert(all.take(i + 1).drop_last() =~= all.take(i as int));
        assert(all.take(i + 1).last() == list@[i as int]@);
        if let Some(data) = strip_prefix(list[i].as_str(), "data: ") {
            out.push(data.to_owned());
            assert(texts(out@) =~= before.push(data@));
            assert(before.push(data@) =~= start + payloads_among(all.take(i as int)).push(data@));
        }
        i = i + 1;
    }
    assert(all.take(all.len() as int) =~= all);
}

/// The part of a stream that has come and is not read yet.
#[derive(Debug)]
pub struct SseBuffer {
    pub text: String,
}

impl SseBuffer {
    /// Nothing has come.
    pub fn new() -> (buffer: SseBuffer)
        ensures
            buffer.text@ == Seq::<char>::empty(),
    {
        SseBuffer { text: String::new() }
    }

    /// Takes more of the stream.
    pub fn push(&mut self, bytes: &[u8])
        ensures
            final(self).text@ == old(self).text@ + lossy_text(bytes@),
    {
        self.text.append(decode_lossy(bytes).as_str());
    }

    /// Takes the payloads of all complete events out of the buffer.
    pub fn take_payloads(&mut self) -> (out: Vec<String>)
        ensures
            texts(out@) == payloads_in(old(self).text@),
            final(self).text@ == rest_of(old(self).text@),
    {
        let ghost start = self.text@;
        let mut out: Vec<String> = Vec::new();
        proof {
            reveal_strlit("\n\n");
            assert("\n\n"@ =~= gap());
        }
        assert(texts(out@) + payloads_in(self.text@) =~= payloads_in(start));
        loop
            invariant_except_break
                start == old(self).text@,
                "\n\n"@ == gap(),
                texts(out@) + payloads_in(self.text@) == payloads_in(start),
                rest_of(self.text@) == rest_of(start),
            ensures
                texts(out@) == payloads_in(start),
                self.text@ == rest_of(start),
            decreases self.text@.len(),
        {
            let ghost before = texts(out@);
            let ghost text = self.text@;
            match find(self.text.as_str(), "\n\n") {
                Some(at) => {
                    proof {
                        lemma_find(text, gap(), 0);
                    }
                    let n: usize = self.text.as_str().unicode_len();
                    let event = self.text.as_str().substring_char(0, at);
                    let ghost first = event@;
                    assert(first =~= text.take(at as int));
                    push_payloads(&mut out, event);
                    let rest = self.text.as_str().substring_char(at + 2, n).to_owned();
                    assert(rest@ =~= text.skip(at + 2));
                    self.text = rest;
                    assert(before + (payloads_of(first) + payloads_in(rest@)) =~= (before
                        + payloads_of(first)) + payloads_in(rest@));
                },
                None => {
                    assert(before + payloads_in(text) =~= before);
                    break;
                },
            }
        }
        out
    }
}

/// It does not matter where a stream is cut: what is read of a text together is
/// what is read of its first part and then of the second part behind what was
/// left.
pub proof fn cuts_do_not_matter(first: Seq<char>, second: Seq<char>)
    ensures
        payloads_in(first + second) == payloads_in(first) + payloads_in(rest_of(first) + second),
        rest_of(first + second) == rest_of(rest_of(first) + second),
    decreases first.len(),
{
    match find_in(first, gap()) {
        Some(at) => {
            lemma_find(first, gap(), 0);
            lemma_find_longer(first, second, gap(), 0);
            let text = first + second;
            assert(text.take(at) =~= first.take(at));
            assert(text.skip(at + 2) =~= first.skip(at + 2) + second);
            cuts_do_not_matter(first.skip(at + 2), second);
            assert(payloads_in(text) =~= payloads_in(first) + payloads_in(
                rest_of(first) + second,
            ));
        },
        None => {
            assert(payloads_in(first) + payloads_in(first + second) =~= payloads_in(
                first + second,
            ));
        },
    }
}

/// What is left in the buffer holds no complete event.
pub proof fn rest_has_no_complete_event(text: Seq<char>)
    ensures
        find_in(rest_of(text), gap()) is None,
        payloads_in(rest_of(text)) == Seq::<Seq<char>>::empty(),
    decreases text.len(),
{
    match find_in(text, gap()) {
        Some(at) => {
            lemma_find(text, gap(), 0);
            rest_has_no_complete_event(text.skip(at + 2));
        },
        None => {},
    }
}

} // verus!
