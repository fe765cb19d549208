//! What one session file says: the turns of its user, counts and tokens.

use crate::json::{
    deref, field, items, opt_object, or, parse_json, parsed_json, sub_field, text_field, Json,
};
use crate::text::{
    chars_of, same, single_line, trim_start, trim_start_chars, truncate_single_line,
    views,
};
use vstd::prelude::*;

verus! {

/// A turn is shown with at most this many characters.
pub const MAX_TURN_PREVIEW_CHARS: usize = 220;

/// What a session file says.
#[derive(Debug)]
pub struct SessionDetail {
    pub meaningful_user_turns: Vec<String>,
    pub all_user_turns: Vec<String>,
    pub assistant_messages: usize,
    pub tool_calls: usize,
    pub tool_outputs: usize,
    pub input_images: usize,
    pub total_tokens: Option<i64>,
    pub input_tokens: Option<i64>,
    pub output_tokens: Option<i64>,
    pub reasoning_encrypted: bool,
}

/// What a session file says, as plain values.
#[verifier::ext_equal]
pub struct DetailModel {
    pub meaningful: Seq<Seq<char>>,
    pub turns: Seq<Seq<char>>,
    pub assistant_messages: usize,
    pub tool_calls: usize,
    pub tool_outputs: usize,
    pub input_images: usize,
    pub total_tokens: Option<i64>,
    pub input_tokens: Option<i64>,
    pub output_tokens: Option<i64>,
    pub reasoning_encrypted: bool,
}

impl View for SessionDetail {
    type V = DetailModel;

    open spec fn view(&self) -> DetailModel {
        DetailModel {
            meaningful: views(self.meaningful_user_turns@),
            turns: views(self.all_user_turns@),
            assistant_messages: self.assistant_messages,
            tool_calls: self.tool_calls,
            tool_outputs: self.tool_outputs,
            input_images: self.input_images,
            total_tokens: self.total_tokens,
            input_tokens: self.input_tokens,
            output_tokens: self.output_tokens,
            reasoning_encrypted: self.reasoning_encrypted,
        }
    }
}

/// Nothing is known of a session.
pub open spec fn no_detail() -> DetailModel {
    DetailModel {
        meaningful: Seq::empty(),
        turns: Seq::empty(),
        assistant_messages: 0,
        tool_calls: 0,
        tool_outputs: 0,
        input_images: 0,
        total_tokens: None,
        input_tokens: None,
        output_tokens: None,
        reasoning_encrypted: false,
    }
}

/// A count that stops at the largest number.
pub open spec fn more(count: usize, by: nat) -> usize {
    if count + by > usize::MAX {
        usize::MAX
    } else {
        (count + by) as usize
    }
}

/// The text is the user's own: not empty, and none of the texts that are put before a session.
pub open spec fn is_meaningful(text: Seq<char>) -> bool {
    let t = trim_start(text);
    &&& t.len() > 0
    &&& !"# AGENTS.md instructions"@.is_prefix_of(t)
    &&& !"<environment_context>"@.is_prefix_of(t)
    &&& !"<skill>"@.is_prefix_of(t)
}

/// The parts of a message.
pub open spec fn parts_of(payload: Json) -> Seq<Json> {
    match items(field(payload, "content"@)) {
        Some(parts) => parts,
        None => Seq::empty(),
    }
}

/// The texts of the parts of a kind.
pub open spec fn part_texts(parts: Seq<Json>, kind: Seq<char>) -> Seq<Seq<char>>
    decreases parts.len(),
{
    if parts.len() == 0 {
        Seq::empty()
    } else {
        let before = part_texts(parts.drop_last(), kind);
        let part = parts.last();
        match text_field(part, "text"@) {
            Some(text) => if text_field(part, "type"@) == Some(kind) {
                before.push(text)
            } else {
                before
            },
            None => before,
        }
    }
}

/// The number of parts of a kind.
pub open spec fn part_count(parts: Seq<Json>, kind: Seq<char>) -> nat
    decreases parts.len(),
{
    if parts.len() == 0 {
        0
    } else {
        part_count(parts.drop_last(), kind) + if text_field(parts.last(), "type"@) == Some(kind) {
            1nat
        } else {
            0
        }
    }
}

/// The turns with some texts added.
pub open spec fn with_turns(d: DetailModel, texts: Seq<Seq<char>>) -> DetailModel
    decreases texts.len(),
{
    if texts.len() == 0 {
        d
    } else {
        let before = with_turns(d, texts.drop_last());
        let text = texts.last();
        let shown = single_line(text, MAX_TURN_PREVIEW_CHARS as nat);
        DetailModel {
            meaningful: if is_meaningful(text) {
                before.meaningful.push(shown)
            } else {
                before.meaningful
            },
            turns: before.turns.push(shown),
            ..before
        }
    }
}

/// A message counts by the one who speaks.
pub open spec fn with_message(d: DetailModel, payload: Json) -> DetailModel {
    let role = text_field(payload, "role"@);
    let parts = parts_of(payload);
    if role == Some("user"@) {
        DetailModel {
            input_images: more(d.input_images, part_count(parts, "input_image"@)),
            ..with_turns(d, part_texts(parts, "input_text"@))
        }
    } else if role == Some("assistant"@) && part_count(parts, "output_text"@) > 0 {
        DetailModel { assistant_messages: more(d.assistant_messages, 1), ..d }
    } else {
        d
    }
}

/// A response item counts by its type.
pub open spec fn with_item(d: DetailModel, payload: Json) -> DetailModel {
    let kind = text_field(payload, "type"@);
    if kind == Some("message"@) {
        with_message(d, payload)
    } else if kind == Some("function_call"@) {
        DetailModel { tool_calls: more(d.tool_calls, 1), ..d }
    } else if kind == Some("function_call_output"@) {
        DetailModel { tool_outputs: more(d.tool_outputs, 1), ..d }
    } else if kind == Some("reasoning"@) && text_field(payload, "encrypted_content"@) is Some {
        DetailModel { reasoning_encrypted: true, ..d }
    } else {
        d
    }
}

/// A number where it is an integer.
pub open spec fn whole(j: Option<Json>) -> Option<i64> {
    match j {
        Some(Json::Number(n)) => n.signed,
        _ => None,
    }
}

/// The integer that goes by the first name, else the one that goes by the second.
pub open spec fn whole_field(j: Json, first: Seq<char>, second: Seq<char>) -> Option<i64> {
    or(whole(field(j, first)), whole(field(j, second)))
}

/// The totals of a token count.
pub open spec fn usage_in(payload: Json) -> Option<Json> {
    let info = field(payload, "info"@);
    if text_field(payload, "type"@) == Some("token_count"@) {
        or(
            opt_object(sub_field(info, "total_token_usage"@)),
            opt_object(sub_field(info, "totalTokenUsage"@)),
        )
    } else {
        None
    }
}

/// The last token count stands.
pub open spec fn with_event(d: DetailModel, payload: Json) -> DetailModel {
    match usage_in(payload) {
        Some(u) => DetailModel {
            total_tokens: whole_field(u, "total_tokens"@, "totalTokens"@),
            input_tokens: whole_field(u, "input_tokens"@, "inputTokens"@),
            output_tokens: whole_field(u, "output_tokens"@, "outputTokens"@),
            ..d
        },
        None => d,
    }
}

/// What is known with one more line; a line that is no JSON says nothing.
pub open spec fn with_line(d: DetailModel, line: Seq<char>) -> DetailModel {
    match parsed_json(line) {
        Some(v) => match opt_object(field(v, "payload"@)) {
            Some(payload) => if text_field(v, "type"@) == Some("response_item"@) {
                with_item(d, payload)
            } else if text_field(v, "type"@) == Some("event_msg"@) {
                with_event(d, payload)
            } else {
                d
            },
            None => d,
        },
        None => d,
    }
}

/// What the lines of a session file say.
pub open spec fn detail_of(lines: Seq<Seq<char>>) -> DetailModel
    decreases lines.len(),
{
    if lines.len() == 0 {
        no_detail()
    } else {
        with_line(detail_of(lines.drop_last()), lines.last())
    }
}

/// Tests whether a text begins with another one.
pub fn begins_with(text: &Vec<char>, start: &str) -> (r: bool)
    ensures
        r == start@.is_prefix_of(text@),
{
    let s = chars_of(start);
    if s.len() > text.len() {
        return false;
    }
    let mut i: usize = 0;
    while i < s.len()
        invariant
            i <= s@.len() <= text@.len(),
            s@ == start@,
            forall|j: int| 0 <= j < i ==> s@[j] == text@[j],
        decreases s@.len() - i,
    {
        if s[i] != text[i] {
            assert(text@.subrange(0, start@.len() as int)[i as int] != start@[i as int]);
            return false;
        }
        i += 1;
    }
    assert(start@ =~= text@.subrange(0, start@.len() as int));
    true
}

/// Tests whether a text is the user's own.
pub fn is_meaningful_user_text(text: &str) -> (r: bool)
    ensures
        r == is_meaningful(text@),
{
    let chars = chars_of(text);
    let t = trim_start_chars(&chars);
    if t.len() == 0 {
        return false;
    }
    if begins_with(&t, "# AGENTS.md instructions") {
        return false;
    }
    if begins_with(&t, "<environment_context>") {
        return false;
    }
    !begins_with(&t, "<skill>")
}

/// Tests whether a member is a given text.
pub(crate) fn says(j: &Json, key: &str, text: &str) -> (r: bool)
    ensures
        r == (text_field(*j, key@) == Some(text@)),
{
    match j.get_str(key) {
        Some(s) => same(s, text),
        None => false,
    }
}

/// The texts of the parts of a kind in a message.
pub fn extract_message_texts(payload: &Json, part_type: &str) -> (r: Vec<String>)
    ensures
        views(r@) == part_texts(parts_of(*payload), part_type@),
{
    let mut texts: Vec<String> = Vec::new();
    assert(views(texts@) =~= Seq::<Seq<char>>::empty());
    if let Some(Json::Array(parts)) = payload.get("content") {
        let mut i: usize = 0;
        while i < parts.len()
            invariant
                i <= parts@.len(),
                views(texts@) == part_texts(parts@.take(i as int), part_type@),
            decreases parts@.len() - i,
        {
            let ghost before = texts@;
            assert(parts@.take(i + 1).drop_last() =~= parts@.take(i as int));
            assert(parts@.take(i + 1).last() == parts@[i as int]);
            if says(&parts[i], "type", part_type) {
                if let Some(text) = parts[i].get_str("text") {
                    texts.push(text.to_owned());
                    assert(views(texts@) =~= views(before).push(text@));
                }
            }
            i += 1;
        }
        assert(parts@.take(i as int) =~= parts@);
    }
    texts
}

/// The number of parts of a kind in a message.
pub fn count_message_parts(payload: &Json, part_type: &str) -> (r: usize)
    ensures
        r == part_count(parts_of(*payload), part_type@),
{
    let mut count: usize = 0;
    if let Some(Json::Array(parts)) = payload.get("content") {
        let mut i: usize = 0;
        while i < parts.len()
            invariant
                i <= parts@.len(),
                count <= i,
                count == part_count(parts@.take(i as int), part_type@),
            decreases parts@.len() - i,
        {
            assert(parts@.take(i + 1).drop_last() =~= parts@.take(i as int));
            assert(parts@.take(i + 1).last() == parts@[i as int]);
            if says(&parts[i], "type", part_type) {
                count += 1;
            }
            i += 1;
        }
        assert(parts@.take(i as int) =~= parts@);
    }
    count
}

fn whole_in(j: &Json, first: &str, second: &str) -> (r: Option<i64>)
    ensures
        r == whole_field(*j, first@, second@),
{
    if let Some(Json::Number(n)) = j.get(first) {
        if n.signed.is_some() {
            return n.signed;
        }
    }
    match j.get(second) {
        Some(Json::Number(n)) => n.signed,
        _ => None,
    }
}

fn usage_of(payload: &Json) -> (r: Option<&Json>)
    ensures
        deref(r) == usage_in(*payload),
{
    if !says(payload, "type", "token_count") {
        return None;
    }
    match payload.get("info") {
        Some(info) => match info.get_object("total_token_usage") {
            Some(u) => Some(u),
            None => info.get_object("totalTokenUsage"),
        },
        None => None,
    }
}

impl SessionDetail {
    /// Nothing is known yet.
    pub fn new() -> (r: Self)
        ensures
            r@ == no_detail(),
    {
        let r = SessionDetail {
            meaningful_user_turns: Vec::new(),
            all_user_turns: Vec::new(),
            assistant_messages: 0,
            tool_calls: 0,
            tool_outputs: 0,
            input_images: 0,
            total_tokens: None,
            input_tokens: None,
            output_tokens: None,
            reasoning_encrypted: false,
        };
        assert(r@ =~= no_detail());
        r
    }

    fn note_turns(&mut self, texts: &Vec<String>)
        ensures
            final(self)@ == with_turns(old(self)@, views(texts@)),
    {
        let ghost start = self@;
        let mut i: usize = 0;
        assert(views(texts@).take(0) =~= Seq::<Seq<char>>::empty());
        while i < texts.len()
            invariant
                i <= texts@.len(),
                start == old(self)@,
                self@ == with_turns(start, views(texts@).take(i as int)),
            decreases texts@.len() - i,
        {
            let ghost before = self@;
            let ghost part = views(texts@).take(i + 1);
            assert(part.drop_last() =~= views(texts@).take(i as int));
            assert(part.last() == texts@[i as int]@);
            let shown = truncate_single_line(texts[i].as_str(), MAX_TURN_PREVIEW_CHARS);
            let ghost line = shown@;
            if is_meaningful_user_text(texts[i].as_str()) {
                let again = truncate_single_line(texts[i].as_str(), MAX_TURN_PREVIEW_CHARS);
                self.meaningful_user_turns.push(again);
                assert(self@.meaningful =~= before.meaningful.push(line));
            }
            self.all_user_turns.push(shown);
            assert(self@.turns =~= before.turns.push(line));
            assert(self@ =~= with_turns(start, part));
            i += 1;
        }
        assert(views(texts@).take(i as int) =~= views(texts@));
    }

    fn note_message(&mut self, payload: &Json)
        ensures
            final(self)@ == with_message(old(self)@, *payload),
    {
        if says(payload, "role", "user") {
            let texts = extract_message_texts(payload, "input_text");
            self.note_turns(&texts);
            let images: usize = count_message_parts(payload, "input_image");
            self.input_images = self.input_images.saturating_add(images);
            proof {
                lemma_turns_only(old(self)@, views(texts@));
            }
        } else if says(payload, "role", "assistant") {
            if count_message_parts(payload, "output_text") > 0 {
                self.assistant_messages = self.assistant_messages.saturating_add(1);
            }
        }
        assert(self@ =~= with_message(old(self)@, *payload));
    }

    fn note_item(&mut self, payload: &Json)
        ensures
            final(self)@ == with_item(old(self)@, *payload),
    {
        proof {
            reveal_strlit("message");
            reveal_strlit("function_call");
            reveal_strlit("function_call_output");
            reveal_strlit("reasoning");
        }
        if says(payload, "type", "message") {
            self.note_message(payload);
        } else if says(payload, "type", "function_call") {
            self.tool_calls = self.tool_calls.saturating_add(1);
        } else if says(payload, "type", "function_call_output") {
            self.tool_outputs = self.tool_outputs.saturating_add(1);
        } else if says(payload, "type", "reasoning") {
            if payload.get_str("encrypted_content").is_some() {
                self.reasoning_encrypted = true;
            }
        }
        assert(self@ =~= with_item(old(self)@, *payload));
    }

    fn note_event(&mut self, payload: &Json)
        ensures
            final(self)@ == with_event(old(self)@, *payload),
    {
        if let Some(u) = usage_of(payload) {
            self.total_tokens = whole_in(u, "total_tokens", "totalTokens");
            self.input_tokens = whole_in(u, "input_tokens", "inputTokens");
            self.output_tokens = whole_in(u, "output_tokens", "outputTokens");
        }
        assert(self@ =~= with_event(old(self)@, *payload));
    }

    /// Takes one more line into account.
    pub fn note_line(&mut self, line: &str)
        ensures
            final(self)@ == with_line(old(self)@, line@),
    {
        if let Some(v) = parse_json(line) {
            if let Some(payload) = v.get_object("payload") {
                if says(&v, "type", "response_item") {
                    self.note_item(payload);
                } else if says(&v, "type", "event_msg") {
                    self.note_event(payload);
                }
            }
        }
        assert(self@ =~= with_line(old(self)@, line@));
    }
}

proof fn lemma_turns_only(d: DetailModel, texts: Seq<Seq<char>>)
    ensures
        with_turns(d, texts).input_images == d.input_images,
    decreases texts.len(),
{
    if texts.len() > 0 {
        lemma_turns_only(d, texts.drop_last());
    }
}

/// What the lines of a session file say.
pub fn load_session_detail(lines: &Vec<String>) -> (r: SessionDetail)
    ensures
        r@ == detail_of(views(lines@)),
{
    let mut detail = SessionDetail::new();
    let mut i: usize = 0;
    assert(views(lines@).take(0) =~= Seq::<Seq<char>>::empty());
    while i < lines.len()
        invariant
            i <= lines@.len(),
            detail@ == detail_of(views(lines@).take(i as int)),
        decreases lines@.len() - i,
    {
        let ghost part = views(lines@).take(i + 1);
        assert(part.drop_last() =~= views(lines@).take(i as int));
        assert(part.last() == lines@[i as int]@);
        detail.note_line(lines[i].as_str());
        i += 1;
    }
    assert(views(lines@).take(i as int) =~= views(lines@));
    detail
}

/// Every text of the user is one more turn and at most one more meaningful turn.
pub proof fn turns_are_counted_once(d: DetailModel, texts: Seq<Seq<char>>)
    ensures
        with_turns(d, texts).turns.len() == d.turns.len() + texts.len(),
        with_turns(d, texts).meaningful.len() - d.meaningful.len() <= texts.len(),
        with_turns(d, texts).meaningful.len() >= d.meaningful.len(),
    decreases texts.len(),
{
    if texts.len() > 0 {
        turns_are_counted_once(d, texts.drop_last());
    }
}

/// A member of an object is this whole number.
pub open spec fn is_number(object: Json, name: Seq<char>, n: i64) -> bool {
    match field(object, name) {
        Some(Json::Number(k)) => k.signed == Some(n),
        _ => false,
    }
}

/// A line is of a kind and has an object for its payload, which is of a kind.
pub open spec fn says_kinds(line: Seq<char>, kind: Seq<char>, payload_kind: Seq<char>) -> bool {
    match parsed_json(line) {
        Some(v) => text_field(v, "type"@) == Some(kind) && match field(v, "payload"@) {
            Some(p) => p is Object && text_field(p, "type"@) == Some(payload_kind),
            None => false,
        },
        None => false,
    }
}

/// The payload of a line.
pub open spec fn payload_in(line: Seq<char>) -> Json {
    field(parsed_json(line)->0, "payload"@)->0
}

/// A line counts the tokens since the start of its session.
pub open spec fn counts_totals(line: Seq<char>) -> bool {
    says_kinds(line, "event_msg"@, "token_count"@) && match field(payload_in(line), "info"@) {
        Some(info) => (field(info, "total_token_usage"@) is Some && field(
            info,
            "total_token_usage"@,
        )->0 is Object) || (field(info, "totalTokenUsage"@) is Some && field(
            info,
            "totalTokenUsage"@,
        )->0 is Object),
        None => false,
    }
}

/// A line counts these tokens since the start of its session.
pub open spec fn counts_these(line: Seq<char>, total: i64, input: i64, output: i64) -> bool {
    says_kinds(line, "event_msg"@, "token_count"@) && match field(payload_in(line), "info"@) {
        Some(info) => match field(info, "total_token_usage"@) {
            Some(u) => u is Object && is_number(u, "total_tokens"@, total) && is_number(
                u,
                "input_tokens"@,
                input,
            ) && is_number(u, "output_tokens"@, output),
            None => false,
        },
        None => false,
    }
}

/// The last token count stands: whatever earlier ones said, and whatever else follows, the tokens of a
/// session are those that its last token count names.
pub proof fn last_token_count_stands(
    lines: Seq<Seq<char>>,
    at: int,
    total: i64,
    input: i64,
    output: i64,
)
    requires
        0 <= at < lines.len(),
        counts_these(lines[at], total, input, output),
        forall|i: int| at < i < lines.len() ==> !counts_totals(#[trigger] lines[i]),
    ensures
        detail_of(lines).total_tokens == Some(total),
        detail_of(lines).input_tokens == Some(input),
        detail_of(lines).output_tokens == Some(output),
    decreases lines.len(),
{
    lemma_detail_kinds();
    let init = lines.drop_last();
    let n = lines.len() - 1;
    assert(lines.last() == lines[n]);
    if at < n {
        assert forall|i: int| at < i < init.len() implies !counts_totals(#[trigger] init[i]) by {
            assert(init[i] == lines[i]);
        }
        assert(init[at] == lines[at]);
        last_token_count_stands(init, at, total, input, output);
        assert(!counts_totals(lines[n]));
        lemma_no_totals_no_tokens(detail_of(init), lines[n]);
    }
}

proof fn lemma_detail_kinds()
    ensures
        "event_msg"@ != "response_item"@,
        "message"@ != "function_call"@,
        "message"@ != "function_call_output"@,
        "message"@ != "reasoning"@,
        "function_call"@ != "function_call_output"@,
        "function_call"@ != "reasoning"@,
        "function_call_output"@ != "reasoning"@,
        "user"@ != "assistant"@,
{
    reveal_strlit("event_msg");
    reveal_strlit("response_item");
    reveal_strlit("message");
    reveal_strlit("function_call");
    reveal_strlit("function_call_output");
    reveal_strlit("reasoning");
    reveal_strlit("user");
    reveal_strlit("assistant");
    assert("event_msg"@.len() == 9 && "response_item"@.len() == 13);
    assert("message"@.len() == 7 && "function_call"@.len() == 13);
    assert("function_call_output"@.len() == 20 && "reasoning"@.len() == 9);
    assert("user"@.len() == 4 && "assistant"@.len() == 9);
}

proof fn lemma_turns_keep_counts(d: DetailModel, texts: Seq<Seq<char>>)
    ensures
        with_turns(d, texts).total_tokens == d.total_tokens,
        with_turns(d, texts).input_tokens == d.input_tokens,
        with_turns(d, texts).output_tokens == d.output_tokens,
        with_turns(d, texts).assistant_messages == d.assistant_messages,
        with_turns(d, texts).tool_calls == d.tool_calls,
        with_turns(d, texts).tool_outputs == d.tool_outputs,
        with_turns(d, texts).input_images == d.input_images,
        with_turns(d, texts).reasoning_encrypted == d.reasoning_encrypted,
    decreases texts.len(),
{
    if texts.len() > 0 {
        lemma_turns_keep_counts(d, texts.drop_last());
    }
}

proof fn lemma_no_totals_no_tokens(d: DetailModel, line: Seq<char>)
    requires
        !counts_totals(line),
    ensures
        with_line(d, line).total_tokens == d.total_tokens,
        with_line(d, line).input_tokens == d.input_tokens,
        with_line(d, line).output_tokens == d.output_tokens,
{
    lemma_detail_kinds();
    lemma_turns_keep_counts(d, part_texts(parts_of(payload_in(line)), "input_text"@));
}

/// How many of the lines hold a value of which something is true.
pub open spec fn count_lines(lines: Seq<Seq<char>>, is: spec_fn(Seq<char>) -> bool) -> nat
    decreases lines.len(),
{
    if lines.len() == 0 {
        0
    } else {
        count_lines(lines.drop_last(), is) + if is(lines.last()) {
            1nat
        } else {
            0nat
        }
    }
}

/// A call of a tool.
pub open spec fn is_tool_call(line: Seq<char>) -> bool {
    says_kinds(line, "response_item"@, "function_call"@)
}

/// What a tool gave back.
pub open spec fn is_tool_output(line: Seq<char>) -> bool {
    says_kinds(line, "response_item"@, "function_call_output"@)
}

/// A message of someone in which a part is of a kind.
pub open spec fn is_message(line: Seq<char>, role: Seq<char>, part: Seq<char>) -> bool {
    says_kinds(line, "response_item"@, "message"@) && text_field(payload_in(line), "role"@) == Some(
        role,
    ) && match field(payload_in(line), "content"@) {
        Some(Json::Array(parts)) => exists|i: int|
            0 <= i < parts@.len() && text_field(#[trigger] parts@[i], "type"@) == Some(part),
        _ => false,
    }
}

/// What the assistant said.
pub open spec fn is_answer(line: Seq<char>) -> bool {
    is_message(line, "assistant"@, "output_text"@)
}

/// Reasoning that is kept secret.
pub open spec fn is_secret(line: Seq<char>) -> bool {
    says_kinds(line, "response_item"@, "reasoning"@) && text_field(
        payload_in(line),
        "encrypted_content"@,
    ) is Some
}

proof fn lemma_part_count(parts: Seq<Json>, kind: Seq<char>)
    ensures
        part_count(parts, kind) > 0 <==> exists|i: int|
            0 <= i < parts.len() && text_field(#[trigger] parts[i], "type"@) == Some(kind),
    decreases parts.len(),
{
    if parts.len() > 0 {
        let init = parts.drop_last();
        lemma_part_count(init, kind);
        if part_count(init, kind) > 0 {
            let i = choose|i: int|
                0 <= i < init.len() && text_field(#[trigger] init[i], "type"@) == Some(kind);
            assert(text_field(parts[i], "type"@) == Some(kind));
        }
        assert(parts.last() == parts[parts.len() - 1]);
        if exists|i: int|
            0 <= i < parts.len() && text_field(#[trigger] parts[i], "type"@) == Some(kind) {
            let i = choose|i: int|
                0 <= i < parts.len() && text_field(#[trigger] parts[i], "type"@) == Some(kind);
            if i < init.len() {
                assert(text_field(init[i], "type"@) == Some(kind));
            }
        }
    }
}

/// The counts of a session are the numbers of its lines of each kind: calls of tools, what they gave
/// back, and messages of the assistant that say something. Its reasoning is secret where some of it
/// is.
pub proof fn counts_are_numbers_of_lines(lines: Seq<Seq<char>>)
    requires
        lines.len() <= usize::MAX,
    ensures
        detail_of(lines).tool_calls == count_lines(lines, |l: Seq<char>| is_tool_call(l)),
        detail_of(lines).tool_outputs == count_lines(lines, |l: Seq<char>| is_tool_output(l)),
        detail_of(lines).assistant_messages == count_lines(lines, |l: Seq<char>| is_answer(l)),
        detail_of(lines).reasoning_encrypted <==> exists|i: int|
            0 <= i < lines.len() && is_secret(#[trigger] lines[i]),
        detail_of(lines).tool_calls <= lines.len(),
        detail_of(lines).tool_outputs <= lines.len(),
        detail_of(lines).assistant_messages <= lines.len(),
    decreases lines.len(),
{
    if lines.len() > 0 {
        let init = lines.drop_last();
        let n = lines.len() - 1;
        assert(lines.last() == lines[n]);
        counts_are_numbers_of_lines(init);
        lemma_detail_kinds();
        let p = payload_in(lines[n]);
        lemma_part_count(parts_of(p), "output_text"@);
        lemma_turns_keep_counts(detail_of(init), part_texts(parts_of(p), "input_text"@));
        if detail_of(init).reasoning_encrypted {
            let i = choose|i: int| 0 <= i < init.len() && is_secret(#[trigger] init[i]);
            assert(is_secret(lines[i]));
        }
        if exists|i: int| 0 <= i < lines.len() && is_secret(#[trigger] lines[i]) {
            let i = choose|i: int| 0 <= i < lines.len() && is_secret(#[trigger] lines[i]);
            if i < n {
                assert(is_secret(init[i]));
            }
        }
    }
}

/// The parts of a message are texts of its user.
pub open spec fn are_texts(parts: Seq<Json>, texts: Seq<Seq<char>>) -> bool {
    parts.len() == texts.len() && forall|i: int|
        0 <= i < parts.len() ==> text_field(#[trigger] parts[i], "type"@) == Some("input_text"@)
            && text_field(parts[i], "text"@) == Some(texts[i])
}

proof fn lemma_texts_of_parts(parts: Seq<Json>, texts: Seq<Seq<char>>)
    requires
        are_texts(parts, texts),
    ensures
        part_texts(parts, "input_text"@) == texts,
    decreases parts.len(),
{
    if parts.len() > 0 {
        let n = parts.len() - 1;
        assert forall|i: int| 0 <= i < n implies text_field(
            #[trigger] parts.drop_last()[i],
            "type"@,
        ) == Some("input_text"@) && text_field(parts.drop_last()[i], "text"@) == Some(
            texts.drop_last()[i],
        ) by {
            assert(parts.drop_last()[i] == parts[i]);
        }
        lemma_texts_of_parts(parts.drop_last(), texts.drop_last());
        assert(parts.last() == parts[n]);
        assert(texts.drop_last().push(texts[n]) =~= texts);
    } else {
        assert(texts =~= Seq::<Seq<char>>::empty());
    }
}

proof fn lemma_turns_in_order(d: DetailModel, texts: Seq<Seq<char>>)
    ensures
        with_turns(d, texts).turns.len() == d.turns.len() + texts.len(),
        forall|i: int|
            0 <= i < d.turns.len() ==> #[trigger] with_turns(d, texts).turns[i] == d.turns[i],
        forall|i: int|
            #![trigger texts[i]]
            0 <= i < texts.len() ==> with_turns(d, texts).turns[d.turns.len() + i] == single_line(
                texts[i],
                220,
            ),
    decreases texts.len(),
{
    if texts.len() > 0 {
        let init = texts.drop_last();
        lemma_turns_in_order(d, init);
        assert forall|i: int| #![trigger texts[i]] 0 <= i < texts.len() implies with_turns(
            d,
            texts,
        ).turns[d.turns.len() + i] == single_line(texts[i], 220) by {
            if i < init.len() {
                assert(init[i] == texts[i]);
            }
        }
    }
}

/// The texts of a user are turns of the session, in their order and behind those before.
pub proof fn texts_of_the_user_are_turns(
    d: DetailModel,
    line: Seq<char>,
    parts: Vec<Json>,
    texts: Seq<Seq<char>>,
)
    requires
        says_kinds(line, "response_item"@, "message"@),
        text_field(payload_in(line), "role"@) == Some("user"@),
        field(payload_in(line), "content"@) == Some(Json::Array(parts)),
        are_texts(parts@, texts),
    ensures
        ({
            let r = with_line(d, line);
            &&& r.turns.len() == d.turns.len() + texts.len()
            &&& forall|i: int| 0 <= i < d.turns.len() ==> #[trigger] r.turns[i] == d.turns[i]
            &&& forall|i: int|
                #![trigger texts[i]]
                0 <= i < texts.len() ==> r.turns[d.turns.len() + i] == single_line(texts[i], 220)
        }),
{
    lemma_detail_kinds();
    lemma_texts_of_parts(parts@, texts);
    lemma_turns_in_order(d, texts);
}

/// A text of the user is a meaningful turn unless it is empty or one of the texts that are put before
/// a session: instructions, the description of the environment, or a skill.
pub proof fn texts_put_before_a_session_are_no_titles(text: Seq<char>, rest: Seq<char>)
    ensures
        trim_start(text) == "# AGENTS.md instructions"@ + rest ==> !is_meaningful(text),
        trim_start(text) == "<environment_context>"@ + rest ==> !is_meaningful(text),
        trim_start(text) == "<skill>"@ + rest ==> !is_meaningful(text),
        trim_start(text).len() == 0 ==> !is_meaningful(text),
        trim_start(text).len() > 0 && trim_start(text)[0] != '#' && trim_start(text)[0] != '<'
            ==> is_meaningful(text),
{
    reveal_strlit("# AGENTS.md instructions");
    reveal_strlit("<environment_context>");
    reveal_strlit("<skill>");
    let t = trim_start(text);
    let a = "# AGENTS.md instructions"@;
    let b = "<environment_context>"@;
    let c = "<skill>"@;
    assert((a + rest).subrange(0, a.len() as int) =~= a);
    assert((b + rest).subrange(0, b.len() as int) =~= b);
    assert((c + rest).subrange(0, c.len() as int) =~= c);
    if a.is_prefix_of(t) {
        assert(t.subrange(0, a.len() as int)[0] == a[0]);
    }
    if b.is_prefix_of(t) {
        assert(t.subrange(0, b.len() as int)[0] == b[0]);
    }
    if c.is_prefix_of(t) {
        assert(t.subrange(0, c.len() as int)[0] == c[0]);
    }
}

} // verus!
