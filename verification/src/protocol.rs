//! The outgoing wire protocol: each throttled snapshot becomes one JSON
//! array line of serialized blocks, framed by a fixed preamble and
//! postamble.
//!
//! Two framing conventions exist in the wild, with and without a trailing
//! comma after every data line; this library fixes the revision without the
//! trailing comma.

use vstd::prelude::*;

use crate::base64::b64_chars;
use crate::block::Block;
use crate::codec::encode;
use crate::color::{hex_chars, hex_digit, hex_digit_char, Color};
use crate::message::Message;
use crate::text::push_char;

verus! {

/// How one character appears inside a JSON string on the wire: quote and
/// backslash escaped, control characters as `\u00xx`, all else verbatim.
pub open spec fn esc_char(c: char) -> Seq<char> {
    if c == '"' {
        seq!['\\', '"']
    } else if c == '\\' {
        seq!['\\', '\\']
    } else if (c as int) < 32 {
        seq!['\\', 'u', '0', '0', hex_digit((c as int) / 16), hex_digit((c as int) % 16)]
    } else {
        seq![c]
    }
}

/// The escaped body of a JSON string.
pub open spec fn esc_chars(s: Seq<char>) -> Seq<char>
    decreases s.len(),
{
    if s.len() == 0 {
        Seq::empty()
    } else {
        esc_char(s[0]) + esc_chars(s.skip(1))
    }
}

/// A JSON string literal: quotes around the escaped text.
pub open spec fn quoted(s: Seq<char>) -> Seq<char> {
    seq!['"'] + esc_chars(s) + seq!['"']
}

pub open spec fn bool_chars(b: bool) -> Seq<char> {
    if b {
        "true"@
    } else {
        "false"@
    }
}

/// Appends the escaped form of `s` to `dst`.
fn escape_into(dst: &mut String, s: &str)
    ensures
        final(dst)@ == old(dst)@ + esc_chars(s@),
{
    let n = s.unicode_len();
    let mut i: usize = 0;
    proof {
        assert(s@.skip(0) =~= s@);
    }
    while i < n
        invariant
            n == s@.len(),
            i <= n,
            dst@ + esc_chars(s@.skip(i as int)) == old(dst)@ + esc_chars(s@),
        decreases n - i,
    {
        let c = s.get_char(i);
        proof {
            let rem = s@.skip(i as int);
            assert(rem[0] == s@[i as int]);
            assert(rem.skip(1) =~= s@.skip(i + 1));
        }
        if c == '"' {
            push_char(dst, '\\');
            push_char(dst, '"');
        } else if c == '\\' {
            push_char(dst, '\\');
            push_char(dst, '\\');
        } else if (c as u32) < 32 {
            let u = c as u32;
            push_char(dst, '\\');
            push_char(dst, 'u');
            push_char(dst, '0');
            push_char(dst, '0');
            push_char(dst, hex_digit_char((u / 16) as u8));
            push_char(dst, hex_digit_char((u % 16) as u8));
        } else {
            push_char(dst, c);
        }
        i = i + 1;
        proof {
            assert(dst@ + esc_chars(s@.skip(i as int)) =~= old(dst)@ + esc_chars(s@));
        }
    }
    proof {
        assert(esc_chars(s@.skip(n as int)) == Seq::<char>::empty());
        assert(dst@ =~= old(dst)@ + esc_chars(s@));
    }
}

/// Appends a JSON string literal holding `s` to `dst`.
fn write_quoted(dst: &mut String, s: &str)
    ensures
        final(dst)@ == old(dst)@ + quoted(s@),
{
    push_char(dst, '"');
    escape_into(dst, s);
    push_char(dst, '"');
    proof {
        assert(dst@ =~= old(dst)@ + quoted(s@));
    }
}

/// The serialized form of a block, as the bar renderer reads it. `name`
/// carries the encoded message and is never interpreted as a display name.
pub struct WireBlock {
    pub name: String,
    pub instance: Option<String>,
    pub full_text: String,
    pub short_text: Option<String>,
    pub color: Option<Color>,
    pub background: Option<Color>,
    pub border: Option<Color>,
    pub urgent: bool,
    pub separator: bool,
}

/// The text of a color field: `#rrggbb`, or empty for "unset".
pub open spec fn color_chars(c: Option<Color>) -> Seq<char> {
    match c {
        Some(c) => hex_chars(c),
        None => Seq::empty(),
    }
}

/// The JSON object for one wire block. Fields appear in a fixed order;
/// `instance`, `short_text`, `background` and `border` are omitted entirely
/// when unset, while `color`, `urgent` and `separator` are always present.
pub open spec fn wire_block_json(w: WireBlock) -> Seq<char> {
    "{\"name\":"@ + quoted(w.name@) + (match w.instance {
        Some(i) => ",\"instance\":"@ + quoted(i@),
        None => Seq::empty(),
    }) + ",\"full_text\":"@ + quoted(w.full_text@) + (match w.short_text {
        Some(t) => ",\"short_text\":"@ + quoted(t@),
        None => Seq::empty(),
    }) + ",\"color\":"@ + quoted(color_chars(w.color)) + (match w.background {
        Some(c) => ",\"background\":"@ + quoted(hex_chars(c)),
        None => Seq::empty(),
    }) + (match w.border {
        Some(c) => ",\"border\":"@ + quoted(hex_chars(c)),
        None => Seq::empty(),
    }) + ",\"urgent\":"@ + bool_chars(w.urgent) + ",\"separator\":"@ + bool_chars(w.separator)
        + "}"@
}

impl WireBlock {
    /// The wire form of a block: the message encoded into `name`, the text
    /// and colors carried over, everything else at its protocol default.
    pub fn from_block<M: Message>(b: &Block<M>) -> (w: WireBlock)
        ensures
            w.name@ == b64_chars(b.message.bytes_of()),
            w.instance is None,
            w.full_text == b.text,
            w.short_text is None,
            w.color == Some(b.foreground),
            w.background == b.background,
            w.border == b.border,
            w.urgent == false,
            w.separator == false,
    {
        WireBlock {
            name: encode(&b.message),
            instance: None,
            full_text: b.text.clone(),
            short_text: None,
            color: Some(b.foreground),
            background: b.background,
            border: b.border,
            urgent: false,
            separator: false,
        }
    }

    /// Serializes this block to its JSON object text.
    pub fn to_json(&self) -> (s: String)
        ensures
            s@ == wire_block_json(*self),
    {
        let mut s = String::new();
        s.append("{\"name\":");
        write_quoted(&mut s, self.name.as_str());
        match &self.instance {
            Some(i) => {
                let mut t = String::new();
                t.append(",\"instance\":");
                write_quoted(&mut t, i.as_str());
                s.append(t.as_str());
            },
            None => {},
        }
        s.append(",\"full_text\":");
        write_quoted(&mut s, self.full_text.as_str());
        match &self.short_text {
            Some(t0) => {
                let mut t = String::new();
                t.append(",\"short_text\":");
                write_quoted(&mut t, t0.as_str());
                s.append(t.as_str());
            },
            None => {},
        }
        s.append(",\"color\":");
        match &self.color {
            Some(c) => {
                let hex = c.to_hex();
                write_quoted(&mut s, hex.as_str());
            },
            None => {
                write_quoted(&mut s, "");
                proof {
                    reveal_strlit("");
                    assert(""@ =~= Seq::<char>::empty());
                }
            },
        }
        match &self.background {
            Some(c) => {
                let mut t = String::new();
                t.append(",\"background\":");
                let hex = c.to_hex();
                write_quoted(&mut t, hex.as_str());
                s.append(t.as_str());
            },
            None => {},
        }
        match &self.border {
            Some(c) => {
                let mut t = String::new();
                t.append(",\"border\":");
                let hex = c.to_hex();
                write_quoted(&mut t, hex.as_str());
                s.append(t.as_str());
            },
            None => {},
        }
        s.append(",\"urgent\":");
        if self.urgent {
            s.append("true");
        } else {
            s.append("false");
        }
        s.append(",\"separator\":");
        if self.separator {
            s.append("true");
        } else {
            s.append("false");
        }
        s.append("}");
        s
    }
}

/// The JSON for one block directly in terms of the block: what one element
/// of a snapshot line holds.
pub open spec fn block_json<M: Message>(b: Block<M>) -> Seq<char> {
    "{\"name\":"@ + quoted(b64_chars(b.message.bytes_of())) + ",\"full_text\":"@ + quoted(b.text@)
        + ",\"color\":"@ + quoted(hex_chars(b.foreground)) + (match b.background {
        Some(c) => ",\"background\":"@ + quoted(hex_chars(c)),
        None => Seq::empty(),
    }) + (match b.border {
        Some(c) => ",\"border\":"@ + quoted(hex_chars(c)),
        None => Seq::empty(),
    }) + ",\"urgent\":"@ + bool_chars(false) + ",\"separator\":"@ + bool_chars(false) + "}"@
}

pub open spec fn blocks_json_tail<M: Message>(bs: Seq<Block<M>>) -> Seq<char>
    decreases bs.len(),
{
    if bs.len() == 0 {
        Seq::empty()
    } else {
        seq![','] + block_json(bs[0]) + blocks_json_tail(bs.skip(1))
    }
}

/// One snapshot's wire line: a JSON array of the blocks' objects, separated
/// by commas, nothing else.
pub open spec fn snapshot_json<M: Message>(bs: Seq<Block<M>>) -> Seq<char> {
    if bs.len() == 0 {
        seq!['[', ']']
    } else {
        seq!['['] + block_json(bs[0]) + blocks_json_tail(bs.skip(1)) + seq![']']
    }
}

fn append_block_json<M: Message>(dst: &mut String, b: &Block<M>)
    ensures
        final(dst)@ == old(dst)@ + block_json(*b),
{
    let w = WireBlock::from_block(b);
    let json = w.to_json();
    dst.append(json.as_str());
    proof {
        assert(wire_block_json(w) == block_json(*b));
    }
}

/// Serializes one snapshot to its single wire line.
pub fn snapshot_line<M: Message>(blocks: &Vec<Block<M>>) -> (line: String)
    ensures
        line@ == snapshot_json(blocks@),
{
    let mut s = String::new();
    push_char(&mut s, '[');
    if blocks.len() == 0 {
        push_char(&mut s, ']');
        proof {
            assert(s@ =~= snapshot_json(blocks@));
        }
        return s;
    }
    append_block_json(&mut s, &blocks[0]);
    let mut i: usize = 1;
    proof {
        assert(s@ + blocks_json_tail(blocks@.skip(1)) + seq![']'] =~= snapshot_json(blocks@));
    }
    while i < blocks.len()
        invariant
            1 <= i <= blocks@.len(),
            s@ + blocks_json_tail(blocks@.skip(i as int)) + seq![']'] == snapshot_json(blocks@),
        decreases blocks@.len() - i,
    {
        proof {
            let rem = blocks@.skip(i as int);
            assert(rem[0] == blocks@[i as int]);
            assert(rem.skip(1) =~= blocks@.skip(i + 1));
        }
        push_char(&mut s, ',');
        append_block_json(&mut s, &blocks[i]);
        i = i + 1;
        proof {
            assert(s@ + blocks_json_tail(blocks@.skip(i as int)) + seq![']'] =~= snapshot_json(
                blocks@,
            ));
        }
    }
    push_char(&mut s, ']');
    proof {
        assert(blocks_json_tail(blocks@.skip(blocks@.len() as int)) == Seq::<char>::empty());
        assert(s@ =~= snapshot_json(blocks@));
    }
    s
}

/// Where a protocol session stands: nothing written yet, streaming data
/// lines, or closed for good.
#[derive(Clone, Copy, Debug, PartialEq, Eq, Structural)]
pub enum WriterPhase {
    Fresh,
    Streaming,
    Closed,
}

/// The framing discipline of one protocol session: the preamble is written
/// exactly once, before any snapshot; the postamble exactly once, after the
/// last; nothing after that. The phase type makes any other order a
/// precondition violation.
pub struct ProtocolWriter {
    phase: WriterPhase,
}

impl View for ProtocolWriter {
    type V = WriterPhase;

    closed spec fn view(&self) -> WriterPhase {
        self.phase
    }
}

impl ProtocolWriter {
    /// A session that has written nothing yet.
    pub fn new() -> (w: ProtocolWriter)
        ensures
            w@ == WriterPhase::Fresh,
    {
        ProtocolWriter { phase: WriterPhase::Fresh }
    }

    /// The two preamble lines, written once before the first snapshot: the
    /// fixed version header and the opening bracket of the outer array.
    pub fn preamble(&mut self) -> (lines: Vec<String>)
        requires
            old(self)@ == WriterPhase::Fresh,
        ensures
            final(self)@ == WriterPhase::Streaming,
            lines@.len() == 2,
            lines@[0]@ == "{ \"version\": 1 }"@,
            lines@[1]@ == "["@,
    {
        self.phase = WriterPhase::Streaming;
        let mut lines: Vec<String> = Vec::new();
        lines.push(String::from_str("{ \"version\": 1 }"));
        lines.push(String::from_str("["));
        lines
    }

    /// The wire line for one snapshot.
    pub fn data_line<M: Message>(&mut self, blocks: &Vec<Block<M>>) -> (line: String)
        requires
            old(self)@ == WriterPhase::Streaming,
        ensures
            final(self)@ == WriterPhase::Streaming,
            line@ == snapshot_json(blocks@),
    {
        snapshot_line(blocks)
    }

    /// The two postamble lines, written once at termination, whatever came
    /// before: an empty array and the closing bracket.
    pub fn postamble(&mut self) -> (lines: Vec<String>)
        requires
            old(self)@ == WriterPhase::Streaming,
        ensures
            final(self)@ == WriterPhase::Closed,
            lines@.len() == 2,
            lines@[0]@ == "[]"@,
            lines@[1]@ == "]"@,
    {
        self.phase = WriterPhase::Closed;
        let mut lines: Vec<String> = Vec::new();
        lines.push(String::from_str("[]"));
        lines.push(String::from_str("]"));
        lines
    }
}

} // verus!
