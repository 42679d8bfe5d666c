//! The final answer of a flow, streamed segment by segment in the order its template gives.

use vstd::prelude::*;
use crate::json::{get_str, spec_as_str, spec_get, JsonSpec, JsonValue};
use crate::orchestration_runtime::debug_stream_events::{
    answer_delta_facts, answer_reasoning_delta, answer_text_delta, event_facts, events_facts,
    EventFacts, RuntimeEventPayload,
};
use crate::text::{chars_of, find_chars, find_from, lemma_find_from_bounds, str_eq, string_from_chars};

verus! {

/// Whether a piece of streamed text is answer text or model reasoning.
#[derive(Debug, Clone, Copy, PartialEq, Eq, Structural)]
pub enum DebugDeltaKind {
    Text,
    Reasoning,
}

/// A piece of text with its kind.
pub struct DebugDeltaPart {
    pub kind: DebugDeltaKind,
    pub text: String,
}

pub open spec fn open_think_tag() -> Seq<char> {
    seq!['<', 't', 'h', 'i', 'n', 'k', '>']
}

pub open spec fn close_think_tag() -> Seq<char> {
    seq!['<', '/', 't', 'h', 'i', 'n', 'k', '>']
}

/// The pieces of a text from `pos` on: outside `<think>` tags it is answer text, inside it is
/// reasoning; the tags themselves and empty pieces are left out, and an unclosed tag runs to
/// the end.
pub open spec fn think_parts_from(s: Seq<char>, pos: int, in_think: bool) -> Seq<(DebugDeltaKind, Seq<char>)>
    decreases s.len() + 1 - pos,
{
    if pos < 0 || pos > s.len() {
        seq![]
    } else {
        let tag = if in_think {
            close_think_tag()
        } else {
            open_think_tag()
        };
        let kind = if in_think {
            DebugDeltaKind::Reasoning
        } else {
            DebugDeltaKind::Text
        };
        match find_from(s, tag, pos) {
            None => if pos < s.len() {
                seq![(kind, s.subrange(pos, s.len() as int))]
            } else {
                seq![]
            },
            Some(k) => if k < pos || tag.len() == 0 || k + tag.len() > s.len() {
                seq![]
            } else {
                (if k > pos {
                    seq![(kind, s.subrange(pos, k))]
                } else {
                    seq![]
                }) + think_parts_from(s, k + tag.len(), !in_think)
            },
        }
    }
}

pub open spec fn think_parts(s: Seq<char>) -> Seq<(DebugDeltaKind, Seq<char>)> {
    think_parts_from(s, 0, false)
}

pub open spec fn part_views(parts: Seq<DebugDeltaPart>) -> Seq<(DebugDeltaKind, Seq<char>)> {
    parts.map_values(|p: DebugDeltaPart| (p.kind, p.text@))
}

/// The answer text of a sequence of pieces, reasoning left out.
pub open spec fn visible_of(parts: Seq<(DebugDeltaKind, Seq<char>)>) -> Seq<char>
    decreases parts.len(),
{
    if parts.len() == 0 {
        seq![]
    } else {
        visible_of(parts.drop_last()) + if parts.last().0 == DebugDeltaKind::Text {
            parts.last().1
        } else {
            seq![]
        }
    }
}

pub open spec fn visible_text(s: Seq<char>) -> Seq<char> {
    visible_of(think_parts(s))
}

/// Splits a complete text into answer pieces and reasoning pieces at its `<think>` tags.
pub fn split_think_tags(text: &str) -> (parts: Vec<DebugDeltaPart>)
    ensures
        part_views(parts@) == think_parts(text@),
{
    let s = chars_of(text);
    let open = vec!['<', 't', 'h', 'i', 'n', 'k', '>'];
    let close = vec!['<', '/', 't', 'h', 'i', 'n', 'k', '>'];
    assert(open@ =~= open_think_tag());
    assert(close@ =~= close_think_tag());
    let mut parts: Vec<DebugDeltaPart> = Vec::new();
    let mut pos: usize = 0;
    let mut in_think = false;
    while pos <= s.len()
        invariant
            s@ == text@,
            open@ == open_think_tag(),
            close@ == close_think_tag(),
            pos <= s.len() + 8,
            think_parts(text@) == part_views(parts@) + think_parts_from(s@, pos as int, in_think),
        decreases s.len() + 1 - pos,
    {
        let tag = if in_think { &close } else { &open };
        let kind = if in_think { DebugDeltaKind::Reasoning } else { DebugDeltaKind::Text };
        let ghost before = part_views(parts@);
        proof {
            lemma_find_from_bounds(s@, tag@, pos as int);
        }
        match find_chars(&s, tag, pos) {
            None => {
                if pos < s.len() {
                    let piece = string_from_chars(&s, pos, s.len());
                    parts.push(DebugDeltaPart { kind, text: piece });
                    assert(part_views(parts@) =~= before.push((kind, s@.subrange(pos as int, s.len() as int))));
                }
                assert(think_parts_from(s@, s.len() + 1, in_think) =~= Seq::<(DebugDeltaKind, Seq<char>)>::empty());
                assert(think_parts(text@) =~= part_views(parts@));
                return parts;
            },
            Some(k) => {
                if k > pos {
                    let piece = string_from_chars(&s, pos, k);
                    parts.push(DebugDeltaPart { kind, text: piece });
                    assert(part_views(parts@) =~= before.push((kind, s@.subrange(pos as int, k as int))));
                }
                proof {
                    let rest = think_parts_from(s@, k + tag@.len(), !in_think);
                    if k > pos {
                        assert(think_parts_from(s@, pos as int, in_think) == seq![(kind, s@.subrange(pos as int, k as int))] + rest);
                        assert(before + (seq![(kind, s@.subrange(pos as int, k as int))] + rest) =~= part_views(parts@) + rest);
                    } else {
                        assert(think_parts_from(s@, pos as int, in_think) =~= rest);
                        assert(part_views(parts@) == before);
                    }
                }
                pos = k + tag.len();
                in_think = !in_think;
            },
        }
    }
    proof {
        assert(think_parts_from(s@, pos as int, in_think) =~= Seq::<(DebugDeltaKind, Seq<char>)>::empty());
        assert(think_parts(text@) =~= part_views(parts@));
    }
    parts
}

/// Visible answer text of a complete text: its answer pieces, reasoning left out.
pub fn visible_answer_text(text: &str) -> (out: String)
    ensures
        out@ == visible_text(text@),
{
    let parts = split_think_tags(text);
    let mut out = String::new();
    let mut i: usize = 0;
    while i < parts.len()
        invariant
            i <= parts@.len(),
            part_views(parts@) == think_parts(text@),
            out@ == visible_of(part_views(parts@).take(i as int)),
        decreases parts.len() - i,
    {
        if parts[i].kind == DebugDeltaKind::Text {
            out.push_str(parts[i].text.as_str());
        }
        proof {
            let pv = part_views(parts@);
            assert(pv.take(i + 1).drop_last() =~= pv.take(i as int));
            assert(pv.take(i + 1).last() == pv[i as int]);
        }
        i = i + 1;
    }
    assert(part_views(parts@).take(parts.len() as int) =~= part_views(parts@));
    out
}

/// A segment of an answer template: fixed text, or the output of a node.
pub enum AnswerPresentationSegment {
    StaticText(String),
    NodeOutput { node_id: String, output_key: String },
}

/// How the answer node's output is put together, segment by segment.
pub struct AnswerPresentationPlan {
    pub answer_node_id: String,
    pub answer_output_key: String,
    pub segments: Vec<AnswerPresentationSegment>,
}

pub enum SegmentSpec {
    StaticText(Seq<char>),
    NodeOutput(Seq<char>, Seq<char>),
}

pub open spec fn segment_spec(s: AnswerPresentationSegment) -> SegmentSpec {
    match s {
        AnswerPresentationSegment::StaticText(t) => SegmentSpec::StaticText(t@),
        AnswerPresentationSegment::NodeOutput { node_id, output_key } => SegmentSpec::NodeOutput(node_id@, output_key@),
    }
}

pub open spec fn segments_spec(s: Seq<AnswerPresentationSegment>) -> Seq<SegmentSpec> {
    s.map_values(|x: AnswerPresentationSegment| segment_spec(x))
}

/// A node output the answer needs, once the node has completed.
pub struct CompletedOutput {
    pub node_id: String,
    pub output_key: String,
    pub value: String,
    pub node_run_id: Option<u128>,
}

pub struct CompletedSpec {
    pub node_id: Seq<char>,
    pub output_key: Seq<char>,
    pub value: Seq<char>,
    pub node_run_id: Option<u128>,
}

pub open spec fn completed_spec(c: CompletedOutput) -> CompletedSpec {
    CompletedSpec { node_id: c.node_id@, output_key: c.output_key@, value: c.value@, node_run_id: c.node_run_id }
}

pub open spec fn completed_specs(c: Seq<CompletedOutput>) -> Seq<CompletedSpec> {
    c.map_values(|x: CompletedOutput| completed_spec(x))
}

/// The value last recorded for a node output.
pub open spec fn completed_lookup(c: Seq<CompletedSpec>, node_id: Seq<char>, key: Seq<char>) -> Option<CompletedSpec>
    decreases c.len(),
{
    if c.len() == 0 {
        None
    } else if c.last().node_id == node_id && c.last().output_key == key {
        Some(c.last())
    } else {
        completed_lookup(c.drop_last(), node_id, key)
    }
}

/// The model of a cursor: the template, the next segment to emit, the text already streamed per
/// segment, and the node outputs recorded so far.
#[verifier::ext_equal]
pub struct CursorModel {
    pub answer_node_id: Seq<char>,
    pub segments: Seq<SegmentSpec>,
    pub next: int,
    pub emitted: Seq<Seq<char>>,
    pub completed: Seq<CompletedSpec>,
}

/// One piece of streamed answer.
pub struct AnswerDelta {
    pub segment_index: int,
    pub reasoning: bool,
    pub text: Seq<char>,
    pub source_node_id: Option<Seq<char>>,
    pub source_node_run_id: Option<u128>,
    pub source_output_key: Option<Seq<char>>,
}

pub open spec fn delta_event(answer_node_id: Seq<char>, d: AnswerDelta) -> EventFacts {
    answer_delta_facts(
        if d.reasoning { "reasoning_delta"@ } else { "text_delta"@ },
        answer_node_id,
        d.text,
        d.segment_index,
        d.source_node_id,
        d.source_node_run_id,
        d.source_output_key,
    )
}

pub open spec fn delta_events(answer_node_id: Seq<char>, ds: Seq<AnswerDelta>) -> Seq<EventFacts> {
    ds.map_values(|d: AnswerDelta| delta_event(answer_node_id, d))
}

/// The pieces of a completed output streamed at once: its answer and reasoning pieces.
pub open spec fn final_text_deltas(
    segment_index: int,
    text: Seq<char>,
    node_id: Seq<char>,
    run: Option<u128>,
    key: Seq<char>,
) -> Seq<AnswerDelta> {
    think_parts(text).map_values(
        |p: (DebugDeltaKind, Seq<char>)|
            AnswerDelta {
                segment_index,
                reasoning: p.0 == DebugDeltaKind::Reasoning,
                text: p.1,
                source_node_id: Some(node_id),
                source_node_run_id: run,
                source_output_key: Some(key),
            },
    )
}

/// What a completed node output adds to the answer when part of it was streamed already: the
/// rest of its visible text, when the streamed text starts it.
pub open spec fn suffix_deltas(
    segment_index: int,
    already: Seq<char>,
    value: Seq<char>,
    node_id: Seq<char>,
    run: Option<u128>,
    key: Seq<char>,
) -> Seq<AnswerDelta> {
    let visible = visible_text(value);
    if already.len() <= visible.len() && visible.take(already.len() as int) == already && visible.len() > already.len() {
        seq![AnswerDelta {
            segment_index,
            reasoning: false,
            text: visible.skip(already.len() as int),
            source_node_id: Some(node_id),
            source_node_run_id: run,
            source_output_key: Some(key),
        }]
    } else {
        seq![]
    }
}

/// Emits the segments that are ready, in order, up to the first node output not yet completed.
pub open spec fn drain(m: CursorModel) -> (CursorModel, Seq<AnswerDelta>)
    decreases m.segments.len() - m.next,
{
    if m.next < 0 || m.next >= m.segments.len() {
        (m, seq![])
    } else {
        let idx = m.next;
        let advanced = CursorModel { next: m.next + 1, ..m };
        match m.segments[idx] {
            SegmentSpec::StaticText(t) => {
                let here = if t.len() > 0 {
                    seq![AnswerDelta {
                        segment_index: idx,
                        reasoning: false,
                        text: t,
                        source_node_id: None,
                        source_node_run_id: None,
                        source_output_key: None,
                    }]
                } else {
                    seq![]
                };
                let (m2, rest) = drain(advanced);
                (m2, here + rest)
            },
            SegmentSpec::NodeOutput(node_id, key) => match completed_lookup(m.completed, node_id, key) {
                None => (m, seq![]),
                Some(c) => {
                    let already = m.emitted[idx];
                    let here = if already.len() == 0 {
                        final_text_deltas(idx, c.value, node_id, c.node_run_id, key)
                    } else {
                        suffix_deltas(idx, already, c.value, node_id, c.node_run_id, key)
                    };
                    let (m2, rest) = drain(advanced);
                    (m2, here + rest)
                },
            },
        }
    }
}

/// The node output segment the cursor stands at, when it is one of this node's.
pub open spec fn current_output_segment(m: CursorModel, node_id: Seq<char>) -> Option<Seq<char>> {
    if 0 <= m.next < m.segments.len() {
        match m.segments[m.next] {
            SegmentSpec::NodeOutput(n, k) => if n == node_id {
                Some(k)
            } else {
                None
            },
            _ => None,
        }
    } else {
        None
    }
}

/// A streamed delta from a node: the ready segments first, then the delta itself when the
/// cursor stands at one of that node's outputs (answer text is remembered for the segment).
pub open spec fn push_delta_spec(m: CursorModel, node_id: Seq<char>, run: u128, reasoning: bool, text: Seq<char>) -> (CursorModel, Seq<AnswerDelta>) {
    let (m1, evs) = drain(m);
    if text.len() == 0 {
        (m1, evs)
    } else {
        match current_output_segment(m1, node_id) {
            None => (m1, evs),
            Some(key) => {
                let m2 = if reasoning {
                    m1
                } else {
                    CursorModel { emitted: m1.emitted.update(m1.next, m1.emitted[m1.next] + text), ..m1 }
                };
                (m2, evs.push(AnswerDelta {
                    segment_index: m1.next,
                    reasoning,
                    text,
                    source_node_id: Some(node_id),
                    source_node_run_id: Some(run),
                    source_output_key: Some(key),
                }))
            },
        }
    }
}

/// The outputs of a completed node that the template uses, recorded segment by segment.
pub open spec fn record_outputs(
    completed: Seq<CompletedSpec>,
    segments: Seq<SegmentSpec>,
    node_id: Seq<char>,
    run: Option<u128>,
    output: JsonSpec,
) -> Seq<CompletedSpec>
    decreases segments.len(),
{
    if segments.len() == 0 || !(output is Object) {
        completed
    } else {
        let before = record_outputs(completed, segments.drop_last(), node_id, run, output);
        match segments.last() {
            SegmentSpec::NodeOutput(n, k) => if n == node_id {
                match get_str(output, k) {
                    Some(v) => before.push(CompletedSpec { node_id: n, output_key: k, value: v, node_run_id: run }),
                    None => before,
                }
            } else {
                before
            },
            _ => before,
        }
    }
}

pub open spec fn complete_node_spec(m: CursorModel, node_id: Seq<char>, run: Option<u128>, output: JsonSpec) -> (CursorModel, Seq<AnswerDelta>) {
    drain(CursorModel { completed: record_outputs(m.completed, m.segments, node_id, run, output), ..m })
}

/// Streams the final answer while nodes run: fixed text as soon as it is reached, node output
/// live when it is the segment being streamed, and the rest of a node's output once it completes.
pub struct AnswerPresentationCursor {
    plan: AnswerPresentationPlan,
    next_segment_index: usize,
    emitted_text: Vec<String>,
    completed_outputs: Vec<CompletedOutput>,
}

impl View for AnswerPresentationCursor {
    type V = CursorModel;

    closed spec fn view(&self) -> CursorModel {
        CursorModel {
            answer_node_id: self.plan.answer_node_id@,
            segments: segments_spec(self.plan.segments@),
            next: self.next_segment_index as int,
            emitted: crate::text::string_views(self.emitted_text@),
            completed: completed_specs(self.completed_outputs@),
        }
    }
}

impl AnswerPresentationCursor {
    /// Whether the cursor's state is consistent.
    pub closed spec fn wf(&self) -> bool {
        &&& self.emitted_text@.len() == self.plan.segments@.len()
        &&& self.next_segment_index <= self.plan.segments@.len()
        &&& self.plan.segments@.len() <= i64::MAX
    }

    pub proof fn lemma_wf(&self)
        requires
            self.wf(),
        ensures
            0 <= self@.next <= self@.segments.len(),
            self@.emitted.len() == self@.segments.len(),
            self@.segments.len() <= i64::MAX,
    {
    }

    /// A cursor at the start of a plan, with nothing streamed or completed yet.
    pub fn new(plan: AnswerPresentationPlan) -> (c: Self)
        requires
            plan.segments@.len() <= i64::MAX,
        ensures
            c.wf(),
            c@.answer_node_id == plan.answer_node_id@,
            c@.segments == segments_spec(plan.segments@),
            c@.next == 0,
            c@.emitted == Seq::new(plan.segments@.len(), |i: int| Seq::<char>::empty()),
            c@.completed.len() == 0,
    {
        let mut emitted: Vec<String> = Vec::new();
        let mut i: usize = 0;
        while i < plan.segments.len()
            invariant
                i <= plan.segments@.len(),
                emitted@.len() == i,
                forall|k: int| 0 <= k < i ==> (#[trigger] emitted@[k])@ == Seq::<char>::empty(),
            decreases plan.segments.len() - i,
        {
            emitted.push(String::new());
            i = i + 1;
        }
        let c = AnswerPresentationCursor {
            plan,
            next_segment_index: 0,
            emitted_text: emitted,
            completed_outputs: Vec::new(),
        };
        assert(c@.emitted =~= Seq::new(c.plan.segments@.len(), |i: int| Seq::<char>::empty()));
        assert(c@.completed =~= Seq::<CompletedSpec>::empty());
        c
    }

    fn lookup_completed(&self, node_id: &str, key: &str) -> (r: Option<usize>)
        ensures
            match r {
                Some(k) => k < self.completed_outputs@.len() && completed_lookup(self@.completed, node_id@, key@) == Some(completed_spec(self.completed_outputs@[k as int])),
                None => completed_lookup(self@.completed, node_id@, key@) is None,
            },
    {
        let ghost all = self@.completed;
        let mut i = self.completed_outputs.len();
        assert(all.take(i as int) =~= all);
        while i > 0
            invariant
                i <= self.completed_outputs@.len(),
                all == completed_specs(self.completed_outputs@),
                completed_lookup(all, node_id@, key@) == completed_lookup(all.take(i as int), node_id@, key@),
            decreases i,
        {
            let c = &self.completed_outputs[i - 1];
            assert(all.take(i as int).drop_last() =~= all.take(i - 1));
            assert(all.take(i as int).last() == completed_spec(*c));
            if str_eq(c.node_id.as_str(), node_id) && str_eq(c.output_key.as_str(), key) {
                return Some(i - 1);
            }
            i = i - 1;
        }
        assert(all.take(0) =~= Seq::<CompletedSpec>::empty());
        None
    }

    fn answer_delta(
        &self,
        segment_index: usize,
        reasoning: bool,
        text: String,
        source_node_id: Option<&str>,
        source_node_run_id: Option<u128>,
        source_output_key: Option<&str>,
    ) -> (e: RuntimeEventPayload)
        requires
            segment_index <= i64::MAX,
        ensures
            event_facts(e) == delta_event(
                self@.answer_node_id,
                AnswerDelta {
                    segment_index: segment_index as int,
                    reasoning,
                    text: text@,
                    source_node_id: crate::json::opt_str_view(source_node_id),
                    source_node_run_id,
                    source_output_key: crate::json::opt_str_view(source_output_key),
                },
            ),
    {
        if reasoning {
            answer_reasoning_delta(
                self.plan.answer_node_id.as_str(),
                text,
                segment_index,
                source_node_id,
                source_node_run_id,
                source_output_key,
            )
        } else {
            answer_text_delta(
                self.plan.answer_node_id.as_str(),
                text,
                segment_index,
                source_node_id,
                source_node_run_id,
                source_output_key,
            )
        }
    }

    fn answer_deltas_from_final_text(
        &self,
        segment_index: usize,
        text: &str,
        source_node_id: &str,
        source_node_run_id: Option<u128>,
        source_output_key: &str,
    ) -> (events: Vec<RuntimeEventPayload>)
        requires
            segment_index <= i64::MAX,
        ensures
            events_facts(events@) == delta_events(
                self@.answer_node_id,
                final_text_deltas(
                    segment_index as int,
                    text@,
                    source_node_id@,
                    source_node_run_id,
                    source_output_key@,
                ),
            ),
    {
        let parts = split_think_tags(text);
        let ghost ds = final_text_deltas(
            segment_index as int,
            text@,
            source_node_id@,
            source_node_run_id,
            source_output_key@,
        );
        let mut events: Vec<RuntimeEventPayload> = Vec::new();
        let mut i: usize = 0;
        while i < parts.len()
            invariant
                segment_index <= i64::MAX,
                i <= parts@.len(),
                part_views(parts@) == think_parts(text@),
                ds.len() == parts@.len(),
                ds == final_text_deltas(segment_index as int, text@, source_node_id@, source_node_run_id, source_output_key@),
                events_facts(events@) == delta_events(self@.answer_node_id, ds.take(i as int)),
            decreases parts.len() - i,
        {
            let part = &parts[i];
            let e = self.answer_delta(
                segment_index,
                part.kind == DebugDeltaKind::Reasoning,
                part.text.clone(),
                Some(source_node_id),
                source_node_run_id,
                Some(source_output_key),
            );
            proof {
                assert(part_views(parts@)[i as int] == (part.kind, part.text@));
                assert(ds[i as int] == AnswerDelta {
                    segment_index: segment_index as int,
                    reasoning: part.kind == DebugDeltaKind::Reasoning,
                    text: part.text@,
                    source_node_id: Some(source_node_id@),
                    source_node_run_id,
                    source_output_key: Some(source_output_key@),
                });
            }
            events.push(e);
            proof {
                assert(ds.take(i + 1) =~= ds.take(i as int).push(ds[i as int]));
                assert(events_facts(events@) =~= events_facts(events@.drop_last()).push(event_facts(e)));
                assert(delta_events(self@.answer_node_id, ds.take(i + 1)) =~= delta_events(self@.answer_node_id, ds.take(i as int)).push(delta_event(self@.answer_node_id, ds[i as int])));
            }
            i = i + 1;
        }
        assert(ds.take(parts.len() as int) =~= ds);
        events
    }

    /// Emits the segments that are ready, in order, up to the first node output not yet completed.
    pub fn drain_ready_segments(&mut self) -> (events: Vec<RuntimeEventPayload>)
        requires
            old(self).wf(),
        ensures
            final(self).wf(),
            final(self)@ == drain(old(self)@).0,
            final(self)@.answer_node_id == old(self)@.answer_node_id,
            final(self)@.segments == old(self)@.segments,
            final(self)@.emitted == old(self)@.emitted,
            final(self)@.completed == old(self)@.completed,
            events_facts(events@) == delta_events(old(self)@.answer_node_id, drain(old(self)@).1),
    {
        let ghost m0 = self@;
        let ghost mut acc: Seq<AnswerDelta> = seq![];
        let mut events: Vec<RuntimeEventPayload> = Vec::new();
        while self.next_segment_index < self.plan.segments.len()
            invariant
                self.wf(),
                self@.answer_node_id == m0.answer_node_id,
                self@.segments == m0.segments,
                self@.emitted == m0.emitted,
                self@.completed == m0.completed,
                drain(m0).0 == drain(self@).0,
                drain(m0).1 == acc + drain(self@).1,
                events_facts(events@) == delta_events(m0.answer_node_id, acc),
            ensures
                self.wf(),
                self@.answer_node_id == m0.answer_node_id,
                self@.segments == m0.segments,
                self@.emitted == m0.emitted,
                self@.completed == m0.completed,
                drain(m0).0 == self@,
                events_facts(events@) == delta_events(m0.answer_node_id, drain(m0).1),
            decreases self.plan.segments.len() - self.next_segment_index,
        {
            let idx = self.next_segment_index;
            let ghost m = self@;
            let ghost adv = CursorModel { next: m.next + 1, ..m };
            let ghost here: Seq<AnswerDelta> = seq![];
            let mut fresh: Vec<RuntimeEventPayload> = Vec::new();
            let mut stop = false;
            proof {
                assert(segments_spec(self.plan.segments@)[idx as int] == segment_spec(self.plan.segments@[idx as int]));
            }
            match &self.plan.segments[idx] {
                AnswerPresentationSegment::StaticText(t) => {
                    if !t.as_str().is_empty() {
                        let e = self.answer_delta(idx, false, t.clone(), None, None, None);
                        fresh.push(e);
                        proof {
                            here = seq![AnswerDelta {
                                segment_index: idx as int,
                                reasoning: false,
                                text: t@,
                                source_node_id: None,
                                source_node_run_id: None,
                                source_output_key: None,
                            }];
                            assert(events_facts(fresh@) =~= delta_events(m0.answer_node_id, here));
                        }
                    } else {
                        assert(events_facts(fresh@) =~= delta_events(m0.answer_node_id, here));
                    }
                },
                AnswerPresentationSegment::NodeOutput { node_id, output_key } => {
                    match self.lookup_completed(node_id.as_str(), output_key.as_str()) {
                        None => {
                            stop = true;
                        },
                        Some(k) => {
                            let c = &self.completed_outputs[k];
                            let already = &self.emitted_text[idx];
                            proof {
                                assert(m.emitted[idx as int] == already@);
                            }
                            if already.as_str().is_empty() {
                                fresh = self.answer_deltas_from_final_text(
                                    idx,
                                    c.value.as_str(),
                                    node_id.as_str(),
                                    c.node_run_id,
                                    output_key.as_str(),
                                );
                                proof {
                                    here = final_text_deltas(idx as int, c.value@, node_id@, c.node_run_id, output_key@);
                                }
                            } else {
                                let visible = visible_answer_text(c.value.as_str());
                                let vchars = chars_of(visible.as_str());
                                let achars = chars_of(already.as_str());
                                if achars.len() < vchars.len() && crate::text::starts_with(visible.as_str(), already.as_str()) {
                                    let suffix = string_from_chars(&vchars, achars.len(), vchars.len());
                                    let e = self.answer_delta(idx, false, suffix, Some(node_id.as_str()), c.node_run_id, Some(output_key.as_str()));
                                    fresh.push(e);
                                    proof {
                                        assert(suffix@ =~= visible@.skip(already@.len() as int));
                                        here = suffix_deltas(idx as int, already@, c.value@, node_id@, c.node_run_id, output_key@);
                                        assert(events_facts(fresh@) =~= delta_events(m0.answer_node_id, here));
                                    }
                                } else {
                                    proof {
                                        here = suffix_deltas(idx as int, already@, c.value@, node_id@, c.node_run_id, output_key@);
                                        assert(here =~= Seq::<AnswerDelta>::empty());
                                        assert(events_facts(fresh@) =~= delta_events(m0.answer_node_id, here));
                                    }
                                }
                            }
                        },
                    }
                },
            }
            if stop {
                proof {
                    assert(drain(self@) == (self@, Seq::<AnswerDelta>::empty()));
                    assert(acc + Seq::<AnswerDelta>::empty() =~= acc);
                }
                break;
            }
            proof {
                assert(drain(m) == (drain(adv).0, here + drain(adv).1));
            }
            let ghost before = events@;
            events.append(&mut fresh);
            self.next_segment_index = idx + 1;
            proof {
                assert(self@ =~= adv);
                assert(events@ == before + events@.subrange(before.len() as int, events@.len() as int));
                assert(events_facts(events@) =~= events_facts(before) + delta_events(m0.answer_node_id, here));
                assert(delta_events(m0.answer_node_id, acc + here) =~= delta_events(m0.answer_node_id, acc) + delta_events(m0.answer_node_id, here));
                assert(acc + (here + drain(adv).1) =~= (acc + here) + drain(adv).1);
                acc = acc + here;
            }
        }
        proof {
            if self.next_segment_index >= self.plan.segments.len() {
                assert(drain(self@) == (self@, Seq::<AnswerDelta>::empty()));
                assert(acc + Seq::<AnswerDelta>::empty() =~= acc);
            }
        }
        events
    }

    /// The node output segment the cursor stands at, with its index, when it is one of the node's.
    fn current_node_output_segment(&self, source_node_id: &str) -> (r: Option<(usize, String)>)
        requires
            self.wf(),
        ensures
            match r {
                Some((i, key)) => i == self@.next && current_output_segment(self@, source_node_id@) == Some(key@),
                None => current_output_segment(self@, source_node_id@) is None,
            },
    {
        let idx = self.next_segment_index;
        if idx >= self.plan.segments.len() {
            return None;
        }
        proof {
            assert(segments_spec(self.plan.segments@)[idx as int] == segment_spec(self.plan.segments@[idx as int]));
        }
        match &self.plan.segments[idx] {
            AnswerPresentationSegment::NodeOutput { node_id, output_key } => {
                if str_eq(node_id.as_str(), source_node_id) {
                    Some((idx, crate::text::to_string(output_key.as_str())))
                } else {
                    None
                }
            },
            AnswerPresentationSegment::StaticText(_) => None,
        }
    }

    /// A streamed delta from a node: the ready segments first, then the delta itself when the
    /// cursor stands at one of that node's outputs.
    pub fn push_delta(
        &mut self,
        source_node_id: &str,
        source_node_run_id: u128,
        reasoning: bool,
        text: &str,
    ) -> (events: Vec<RuntimeEventPayload>)
        requires
            old(self).wf(),
        ensures
            final(self).wf(),
            final(self)@ == push_delta_spec(old(self)@, source_node_id@, source_node_run_id, reasoning, text@).0,
            events_facts(events@) == delta_events(
                old(self)@.answer_node_id,
                push_delta_spec(old(self)@, source_node_id@, source_node_run_id, reasoning, text@).1,
            ),
    {
        let ghost m0 = self@;
        let mut events = self.drain_ready_segments();
        let ghost m1 = self@;
        let ghost d = drain(m0);
        if text.is_empty() {
            return events;
        }
        match self.current_node_output_segment(source_node_id) {
            None => events,
            Some((segment_index, output_key)) => {
                proof {
                    self.lemma_wf();
                }
                if !reasoning {
                    self.emitted_text[segment_index].push_str(text);
                    proof {
                        assert(self@ =~= CursorModel { emitted: m1.emitted.update(m1.next, m1.emitted[m1.next] + text@), ..m1 });
                    }
                }
                let e = self.answer_delta(
                    segment_index,
                    reasoning,
                    crate::text::to_string(text),
                    Some(source_node_id),
                    Some(source_node_run_id),
                    Some(output_key.as_str()),
                );
                let ghost before = events@;
                events.push(e);
                proof {
                    let dl = AnswerDelta {
                        segment_index: m1.next,
                        reasoning,
                        text: text@,
                        source_node_id: Some(source_node_id@),
                        source_node_run_id: Some(source_node_run_id),
                        source_output_key: Some(output_key@),
                    };
                    assert(events_facts(events@) =~= events_facts(before).push(event_facts(e)));
                    assert(delta_events(m0.answer_node_id, d.1.push(dl)) =~= delta_events(m0.answer_node_id, d.1).push(delta_event(m0.answer_node_id, dl)));
                }
                events
            },
        }
    }

    /// A delta streamed by a provider: answer text or reasoning goes on as in `push_delta`;
    /// any other provider event emits nothing.
    pub fn push_provider_event(
        &mut self,
        source_node_id: &str,
        source_node_run_id: u128,
        event: &ProviderStreamEvent,
    ) -> (events: Vec<RuntimeEventPayload>)
        requires
            old(self).wf(),
        ensures
            final(self).wf(),
            match event {
                ProviderStreamEvent::TextDelta { delta } => {
                    &&& final(self)@ == push_delta_spec(old(self)@, source_node_id@, source_node_run_id, false, delta@).0
                    &&& events_facts(events@) == delta_events(
                        old(self)@.answer_node_id,
                        push_delta_spec(old(self)@, source_node_id@, source_node_run_id, false, delta@).1,
                    )
                },
                ProviderStreamEvent::ReasoningDelta { delta } => {
                    &&& final(self)@ == push_delta_spec(old(self)@, source_node_id@, source_node_run_id, true, delta@).0
                    &&& events_facts(events@) == delta_events(
                        old(self)@.answer_node_id,
                        push_delta_spec(old(self)@, source_node_id@, source_node_run_id, true, delta@).1,
                    )
                },
                ProviderStreamEvent::Other => final(self)@ == old(self)@ && events@.len() == 0,
            },
    {
        match event {
            ProviderStreamEvent::ReasoningDelta { delta } => self.push_delta(source_node_id, source_node_run_id, true, delta.as_str()),
            ProviderStreamEvent::TextDelta { delta } => self.push_delta(source_node_id, source_node_run_id, false, delta.as_str()),
            ProviderStreamEvent::Other => Vec::new(),
        }
    }

    /// Records the outputs of a completed node that the template uses, then emits what became
    /// ready.
    pub fn complete_node_with_run_id(
        &mut self,
        node_id: &str,
        node_run_id: Option<u128>,
        output_payload: &JsonValue,
    ) -> (events: Vec<RuntimeEventPayload>)
        requires
            old(self).wf(),
        ensures
            final(self).wf(),
            final(self)@ == complete_node_spec(old(self)@, node_id@, node_run_id, output_payload@).0,
            events_facts(events@) == delta_events(
                old(self)@.answer_node_id,
                complete_node_spec(old(self)@, node_id@, node_run_id, output_payload@).1,
            ),
    {
        let ghost m0 = self@;
        if output_payload.is_object() {
            let mut i: usize = 0;
            assert(m0.segments.take(0) =~= Seq::<SegmentSpec>::empty());
            while i < self.plan.segments.len()
                invariant
                    self.wf(),
                    output_payload@ is Object,
                    i <= self.plan.segments@.len(),
                    m0.segments == segments_spec(self.plan.segments@),
                    self@ == (CursorModel {
                        completed: record_outputs(m0.completed, m0.segments.take(i as int), node_id@, node_run_id, output_payload@),
                        ..m0
                    }),
                decreases self.plan.segments.len() - i,
            {
                let ghost before = self.completed_outputs@;
                proof {
                    assert(m0.segments.take(i + 1).drop_last() =~= m0.segments.take(i as int));
                    assert(m0.segments.take(i + 1).last() == segment_spec(self.plan.segments@[i as int]));
                }
                match &self.plan.segments[i] {
                    AnswerPresentationSegment::NodeOutput { node_id: source_node_id, output_key } => {
                        if str_eq(source_node_id.as_str(), node_id) {
                            match output_payload.get_str(output_key.as_str()) {
                                Some(value) => {
                                    self.completed_outputs.push(CompletedOutput {
                                        node_id: crate::text::to_string(source_node_id.as_str()),
                                        output_key: crate::text::to_string(output_key.as_str()),
                                        value: crate::text::to_string(value),
                                        node_run_id,
                                    });
                                    proof {
                                        assert(completed_specs(self.completed_outputs@) =~= completed_specs(before).push(
                                            completed_spec(self.completed_outputs@.last()),
                                        ));
                                    }
                                },
                                None => {},
                            }
                        }
                    },
                    AnswerPresentationSegment::StaticText(_) => {},
                }
                i = i + 1;
                proof {
                    assert(self@ =~= (CursorModel {
                        completed: record_outputs(m0.completed, m0.segments.take(i as int), node_id@, node_run_id, output_payload@),
                        ..m0
                    }));
                }
            }
            assert(m0.segments.take(self.plan.segments.len() as int) =~= m0.segments);
        }
        self.drain_ready_segments()
    }

    /// `complete_node_with_run_id` for a node run that has an id.
    pub fn complete_node(&mut self, node_id: &str, node_run_id: u128, output_payload: &JsonValue) -> (events: Vec<RuntimeEventPayload>)
        requires
            old(self).wf(),
        ensures
            final(self).wf(),
            final(self)@ == complete_node_spec(old(self)@, node_id@, Some(node_run_id), output_payload@).0,
            events_facts(events@) == delta_events(
                old(self)@.answer_node_id,
                complete_node_spec(old(self)@, node_id@, Some(node_run_id), output_payload@).1,
            ),
    {
        self.complete_node_with_run_id(node_id, Some(node_run_id), output_payload)
    }
}

/// What a provider streams, as far as the answer cursor reads it.
pub enum ProviderStreamEvent {
    TextDelta { delta: String },
    ReasoningDelta { delta: String },
    /// Any other provider event (tool calls, usage, finish, ...).
    Other,
}


/// When the text streamed for a segment starts the visible text of the completed output, the
/// rest comes as one answer-text delta, and the two together make the visible text.
pub proof fn law_streamed_and_suffix_make_visible_text(
    segment_index: int,
    already: Seq<char>,
    value: Seq<char>,
    node_id: Seq<char>,
    run: Option<u128>,
    key: Seq<char>,
)
    requires
        already.len() < visible_text(value).len(),
        visible_text(value).take(already.len() as int) == already,
    ensures
        suffix_deltas(segment_index, already, value, node_id, run, key).len() == 1,
        !suffix_deltas(segment_index, already, value, node_id, run, key)[0].reasoning,
        already + suffix_deltas(segment_index, already, value, node_id, run, key)[0].text == visible_text(value),
{
    let v = visible_text(value);
    assert(already + v.skip(already.len() as int) =~= v);
}

/// When the streamed text does not start the visible text of the completed output, nothing
/// more is streamed for the segment.
pub proof fn law_diverged_stream_adds_nothing(
    segment_index: int,
    already: Seq<char>,
    value: Seq<char>,
    node_id: Seq<char>,
    run: Option<u128>,
    key: Seq<char>,
)
    requires
        !(already.len() <= visible_text(value).len() && visible_text(value).take(already.len() as int) == already),
    ensures
        suffix_deltas(segment_index, already, value, node_id, run, key).len() == 0,
{
}

} // verus!
