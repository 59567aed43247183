//! The output pipeline: combine-latest ordering, throttle coalescing, and
//! the wire framing.

use desktus::block::Block;
use desktus::color::Color;
use desktus::combine::Combiner;
use desktus::protocol::{snapshot_line, ProtocolWriter, WireBlock};
use desktus::throttle::Throttle;

fn block(text: &str, message: u64) -> Block<u64> {
    Block::new(text.to_string(), Color { red: 1, green: 2, blue: 3 }, message)
}

fn texts(blocks: &[Block<u64>]) -> Vec<String> {
    blocks.iter().map(|b| b.text.clone()).collect()
}

#[test]
fn combiner_interleaves_latest_batches() {
    // Source A emits at t=1,3,5 and source B at t=2,4: the aggregate emits
    // at every arrival, carrying the latest batch of the other source.
    let mut c: Combiner<u64> = Combiner::new(2);
    let t1 = c.arrive(0, vec![block("a1", 1)]);
    assert_eq!(texts(&t1), ["a1"]);
    let t2 = c.arrive(1, vec![block("b1", 2)]);
    assert_eq!(texts(&t2), ["a1", "b1"]);
    let t3 = c.arrive(0, vec![block("a2", 3)]);
    assert_eq!(texts(&t3), ["a2", "b1"]);
    let t4 = c.arrive(1, vec![block("b2", 4)]);
    assert_eq!(texts(&t4), ["a2", "b2"]);
    let t5 = c.arrive(0, vec![block("a3", 5)]);
    assert_eq!(texts(&t5), ["a3", "b2"]);
}

#[test]
fn combiner_handles_empty_and_multi_block_batches() {
    let mut c: Combiner<u64> = Combiner::new(3);
    let s = c.arrive(1, vec![block("x", 1), block("y", 2)]);
    assert_eq!(texts(&s), ["x", "y"]);
    // A source that has produced nothing contributes nothing; an empty
    // batch clears a slot.
    let s = c.arrive(1, vec![]);
    assert_eq!(texts(&s), Vec::<String>::new());
    let s = c.arrive(2, vec![block("z", 3)]);
    assert_eq!(texts(&s), ["z"]);
}

#[test]
fn combiner_snapshot_keeps_source_order() {
    let mut c: Combiner<u64> = Combiner::new(2);
    c.arrive(1, vec![block("late-slot", 1)]);
    let s = c.arrive(0, vec![block("early-slot", 2)]);
    // Source order, not arrival order.
    assert_eq!(texts(&s), ["early-slot", "late-slot"]);
}

#[test]
fn throttle_emits_latest_only() {
    // Ten rapid upstream values within one period: the tick forwards only
    // the last, and none of the intermediates is ever seen.
    let mut t: Throttle<u32> = Throttle::new();
    for v in 0..10u32 {
        t.offer(v);
    }
    assert_eq!(t.tick(), Some(9));
}

#[test]
fn throttle_does_not_repeat_stale_values() {
    let mut t: Throttle<u32> = Throttle::new();
    t.offer(5);
    assert_eq!(t.tick(), Some(5));
    // The upstream is slower than the period: the next ticks carry nothing
    // rather than re-emitting stale data.
    assert_eq!(t.tick(), None);
    assert_eq!(t.tick(), None);
    t.offer(6);
    assert_eq!(t.tick(), Some(6));
}

#[test]
fn empty_run_writes_exactly_the_framing() {
    // A session with zero snapshots still writes all four framing lines,
    // and nothing else.
    let mut w = ProtocolWriter::new();
    let mut lines: Vec<String> = w.preamble();
    lines.extend(w.postamble());
    assert_eq!(lines, ["{ \"version\": 1 }", "[", "[]", "]"]);
}

#[test]
fn snapshot_line_of_empty_batch() {
    let blocks: Vec<Block<u64>> = vec![];
    assert_eq!(snapshot_line(&blocks), "[]");
}

#[test]
fn data_line_serializes_blocks() {
    let mut w = ProtocolWriter::new();
    let _ = w.preamble();
    let blocks = vec![block("ok", 0), block("go", 1)];
    let line = w.data_line(&blocks);
    let zero = base64::encode(&bincode::serialize(&0u64).unwrap());
    let one = base64::encode(&bincode::serialize(&1u64).unwrap());
    let expected = format!(
        "[{{\"name\":\"{zero}\",\"full_text\":\"ok\",\"color\":\"#010203\",\"urgent\":false,\"separator\":false}},\
{{\"name\":\"{one}\",\"full_text\":\"go\",\"color\":\"#010203\",\"urgent\":false,\"separator\":false}}]"
    );
    assert_eq!(line, expected);
}

#[test]
fn wire_block_escapes_text_and_omits_unset_fields() {
    let w = WireBlock {
        name: "QUFBQUFBQUE=".to_string(),
        instance: None,
        full_text: "a\"b\\c\nd".to_string(),
        short_text: None,
        color: Some(Color { red: 255, green: 0, blue: 128 }),
        background: None,
        border: None,
        urgent: false,
        separator: true,
    };
    assert_eq!(
        w.to_json(),
        "{\"name\":\"QUFBQUFBQUE=\",\"full_text\":\"a\\\"b\\\\c\\u000ad\",\
\"color\":\"#ff0080\",\"urgent\":false,\"separator\":true}"
    );
}

#[test]
fn wire_block_keeps_optional_fields_when_set() {
    let w = WireBlock {
        name: String::new(),
        instance: Some("i0".to_string()),
        full_text: "t".to_string(),
        short_text: Some("s".to_string()),
        color: None,
        background: Some(Color { red: 178, green: 34, blue: 34 }),
        border: Some(Color { red: 0, green: 0, blue: 0 }),
        urgent: true,
        separator: false,
    };
    assert_eq!(
        w.to_json(),
        "{\"name\":\"\",\"instance\":\"i0\",\"full_text\":\"t\",\"short_text\":\"s\",\
\"color\":\"\",\"background\":\"#b22222\",\"border\":\"#000000\",\"urgent\":true,\"separator\":false}"
    );
}

#[test]
fn blocks_round_trip_through_the_wire_name() {
    // The name written for a block decodes back to exactly the message the
    // block carried.
    let b = block("text", 0xfeed_f00d_1234_5678);
    let w = WireBlock::from_block(&b);
    assert_eq!(
        desktus::codec::decode::<u64>(w.name.as_str()),
        Ok(0xfeed_f00d_1234_5678)
    );
}
