//! Folding the records of one transcript into a session's derived fields,
//! and into the messages shown in a preview.

use vstd::prelude::*;

use crate::content::{
    block_text, block_texts, blocks_text, content_text, is_system_str, is_system_text,
    ContentBlock, MessageContent,
};
use crate::json::{field_of, json_text, JsonModel};
use crate::record::{
    block_is, block_ok, blocks_are, decode_line, line_decodes_to, message_content_is,
    SessionRecord,
};
use crate::session::Session;
use crate::text::{
    joined, lemma_joined_push, lower_of, one_line, opt_chars, push_joined, to_lower,
    truncate_message, truncated,
};

verus! {

/// What a scan has gathered so far.
pub struct ScanModel {
    pub created: Option<i64>,
    pub summary: Option<Seq<char>>,
    pub custom_title: Option<Seq<char>>,
    pub first_message: Option<Seq<char>>,
    pub message_count: nat,
    /// The searchable texts, in file order.
    pub parts: Seq<Seq<char>>,
    pub total_chars: nat,
}

/// `n`, capped at the largest `usize`.
pub open spec fn capped(n: nat) -> nat {
    if n > usize::MAX {
        usize::MAX as nat
    } else {
        n
    }
}

/// Adds a searchable text, even an empty one.
pub open spec fn with_text(m: ScanModel, t: Seq<char>) -> ScanModel {
    ScanModel { parts: m.parts.push(t), total_chars: capped(m.total_chars + t.len()), ..m }
}

/// Adds a searchable text if it is not empty.
pub open spec fn with_part(m: ScanModel, t: Seq<char>) -> ScanModel {
    if t.len() > 0 {
        with_text(m, t)
    } else {
        m
    }
}

/// The effect of one record on a scan.
pub open spec fn scan_step(m: ScanModel, r: SessionRecord) -> ScanModel {
    match r {
        SessionRecord::Summary(s) => ScanModel {
            summary: Some(s.summary@),
            ..with_text(m, s.summary@)
        },
        SessionRecord::CustomTitle(c) => ScanModel { custom_title: Some(c.custom_title@), ..m },
        SessionRecord::User(u) => {
            let text = content_text(u.message.content);
            let counted = ScanModel {
                message_count: capped(m.message_count + 1),
                created: if m.created is Some {
                    m.created
                } else {
                    Some(u.timestamp)
                },
                ..m
            };
            let added = with_part(counted, text);
            if text.len() > 0 && m.first_message is None && !is_system_text(text) {
                ScanModel { first_message: Some(truncated(one_line(text), 100)), ..added }
            } else {
                added
            }
        },
        SessionRecord::Assistant(a) => with_part(
            ScanModel { message_count: capped(m.message_count + 1), ..m },
            blocks_text(a.message.content@),
        ),
        _ => m,
    }
}

/// The effect of one line: its record's, if it decodes.
pub open spec fn scan_step_opt(m: ScanModel, r: Option<SessionRecord>) -> ScanModel {
    match r {
        Some(rec) => scan_step(m, rec),
        None => m,
    }
}

/// A scan that has seen nothing.
pub open spec fn empty_scan() -> ScanModel {
    ScanModel {
        created: None,
        summary: None,
        custom_title: None,
        first_message: None,
        message_count: 0,
        parts: Seq::empty(),
        total_chars: 0,
    }
}

/// A scan of the given records in order.
pub open spec fn scan_records(recs: Seq<SessionRecord>) -> ScanModel
    decreases recs.len(),
{
    if recs.len() == 0 {
        empty_scan()
    } else {
        scan_step(scan_records(recs.drop_last()), recs.last())
    }
}

/// A scan of the given decoded lines in order; lines that gave nothing count for nothing.
pub open spec fn scan_decoded(recs: Seq<Option<SessionRecord>>) -> ScanModel
    decreases recs.len(),
{
    if recs.len() == 0 {
        empty_scan()
    } else {
        scan_step_opt(scan_decoded(recs.drop_last()), recs.last())
    }
}

/// `recs` is what each of `lines` decodes to.
pub open spec fn decoded_lines(lines: Seq<String>, recs: Seq<Option<SessionRecord>>) -> bool {
    &&& lines.len() == recs.len()
    &&& forall|k: int| 0 <= k < lines.len() ==> line_decodes_to(#[trigger] lines[k]@, recs[k])
}

/// The derived fields of a session, as one scan of its transcript found them.
#[derive(Clone, Debug)]
pub struct SessionMetadata {
    pub created: Option<i64>,
    pub summary: Option<String>,
    pub custom_title: Option<String>,
    pub first_message: Option<String>,
    pub message_count: usize,
    pub search_content: String,
    pub token_count: usize,
}

/// The final fields a scan yields: the searchable texts space-joined and
/// lowercased, and a token estimate of a quarter of their characters.
pub open spec fn metadata_is(m: ScanModel, md: SessionMetadata) -> bool {
    &&& md.created == m.created
    &&& opt_chars(md.summary) == m.summary
    &&& opt_chars(md.custom_title) == m.custom_title
    &&& opt_chars(md.first_message) == m.first_message
    &&& md.message_count as nat == m.message_count
    &&& md.search_content@ == lower_of(joined(m.parts, seq![' ']))
    &&& md.token_count as nat == m.total_chars / 4
}

/// A scan in progress over the records of one transcript, in file order.
pub struct MetadataScan {
    created: Option<i64>,
    summary: Option<String>,
    custom_title: Option<String>,
    first_message: Option<String>,
    message_count: usize,
    text: String,
    has_parts: bool,
    parts: Ghost<Seq<Seq<char>>>,
    total_chars: usize,
}

impl View for MetadataScan {
    type V = ScanModel;

    closed spec fn view(&self) -> ScanModel {
        ScanModel {
            created: self.created,
            summary: opt_chars(self.summary),
            custom_title: opt_chars(self.custom_title),
            first_message: opt_chars(self.first_message),
            message_count: self.message_count as nat,
            parts: self.parts@,
            total_chars: self.total_chars as nat,
        }
    }
}

impl MetadataScan {
    /// The searchable text gathered so far is the space-join of the parts.
    pub closed spec fn wf(&self) -> bool {
        &&& self.text@ == joined(self.parts@, seq![' '])
        &&& self.has_parts == (self.parts@.len() > 0)
    }

    /// A scan that has seen no record yet.
    pub fn new() -> (r: MetadataScan)
        ensures
            r@ == empty_scan(),
            r.wf(),
    {
        MetadataScan {
            created: None,
            summary: None,
            custom_title: None,
            first_message: None,
            message_count: 0,
            text: String::new(),
            has_parts: false,
            parts: Ghost(Seq::empty()),
            total_chars: 0,
        }
    }

    fn add_text(&mut self, t: &str)
        requires
            old(self).wf(),
        ensures
            final(self).wf(),
            final(self)@ == with_text(old(self)@, t@),
    {
        let n = t.unicode_len();
        proof {
            reveal_strlit(" ");
            lemma_joined_push(self.parts@, seq![' '], t@);
        }
        assert(" "@ =~= seq![' ']);
        let ghost was = self.parts@;
        push_joined(&mut self.text, !self.has_parts, " ", t);
        self.parts = Ghost(was.push(t@));
        self.has_parts = true;
        self.total_chars = self.total_chars.saturating_add(n);
    }

    fn add_part(&mut self, t: &str)
        requires
            old(self).wf(),
        ensures
            final(self).wf(),
            final(self)@ == with_part(old(self)@, t@),
    {
        if t.unicode_len() > 0 {
            self.add_text(t);
        }
    }
}

impl MetadataScan {
    /// Takes one record into account, in file order.
    pub fn push_record(&mut self, rec: &SessionRecord)
        requires
            old(self).wf(),
        ensures
            final(self).wf(),
            final(self)@ == scan_step(old(self)@, *rec),
    {
        match rec {
            SessionRecord::Summary(s) => {
                self.add_text(s.summary.as_str());
                self.summary = Some(s.summary.clone());
            },
            SessionRecord::CustomTitle(c) => {
                self.custom_title = Some(c.custom_title.clone());
            },
            SessionRecord::User(u) => {
                self.message_count = self.message_count.saturating_add(1);
                if self.created.is_none() {
                    self.created = Some(u.timestamp);
                }
                let text = u.message.content.as_text();
                self.add_part(text.as_str());
                if text.as_str().unicode_len() > 0 && self.first_message.is_none()
                    && !is_system_str(text.as_str()) {
                    self.first_message = Some(truncate_message(text.as_str(), 100));
                }
            },
            SessionRecord::Assistant(a) => {
                self.message_count = self.message_count.saturating_add(1);
                let text = a.message.as_text();
                self.add_part(text.as_str());
            },
            _ => {},
        }
    }

    /// Takes one transcript line into account; a line that does not decode
    /// changes nothing.
    pub fn push_line(&mut self, line: &str)
        requires
            old(self).wf(),
        ensures
            final(self).wf(),
            exists|r: Option<SessionRecord>|
                line_decodes_to(line@, r) && final(self)@ == scan_step_opt(old(self)@, r),
    {
        let r = decode_line(line);
        match &r {
            Some(rec) => self.push_record(rec),
            None => {},
        }
        assert(line_decodes_to(line@, r));
    }

    /// The derived fields of the transcript seen so far.
    pub fn finish(&self) -> (r: SessionMetadata)
        requires
            self.wf(),
        ensures
            metadata_is(self@, r),
    {
        SessionMetadata {
            created: self.created,
            summary: clone_opt(&self.summary),
            custom_title: clone_opt(&self.custom_title),
            first_message: clone_opt(&self.first_message),
            message_count: self.message_count,
            search_content: to_lower(self.text.as_str()),
            token_count: self.total_chars / 4,
        }
    }
}

fn clone_opt(o: &Option<String>) -> (r: Option<String>)
    ensures
        opt_chars(r) == opt_chars(*o),
{
    match o {
        Some(s) => Some(s.clone()),
        None => None,
    }
}

proof fn lemma_block_text_unique(j: JsonModel, b1: ContentBlock, b2: ContentBlock)
    requires
        block_ok(j),
        block_is(j, b1),
        block_is(j, b2),
    ensures
        block_text(b1) == block_text(b2),
{
}

proof fn lemma_block_texts_unique(items: Seq<JsonModel>, bs1: Seq<ContentBlock>, bs2: Seq<ContentBlock>)
    requires
        forall|i: int| 0 <= i < items.len() ==> block_ok(#[trigger] items[i]),
        blocks_are(items, bs1),
        blocks_are(items, bs2),
    ensures
        block_texts(bs1) == block_texts(bs2),
    decreases items.len(),
{
    if items.len() > 0 {
        let n = items.len() - 1;
        lemma_block_texts_unique(items.drop_last(), bs1.drop_last(), bs2.drop_last());
        lemma_block_text_unique(items[n], bs1[n], bs2[n]);
    }
}

proof fn lemma_content_text_unique(j: JsonModel, c1: MessageContent, c2: MessageContent)
    requires
        crate::record::message_content_ok(j),
        message_content_is(j, c1),
        message_content_is(j, c2),
    ensures
        content_text(c1) == content_text(c2),
{
    if let JsonModel::Array(items) = j {
        if let MessageContent::Structured(a) = c1 {
            if let MessageContent::Structured(b) = c2 {
                lemma_block_texts_unique(items, a@, b@);
            }
        }
    }
}

proof fn lemma_step_unique(m: ScanModel, line: Seq<char>, r1: Option<SessionRecord>, r2: Option<SessionRecord>)
    requires
        line_decodes_to(line, r1),
        line_decodes_to(line, r2),
    ensures
        scan_step_opt(m, r1) == scan_step_opt(m, r2),
{
    if r1 is Some && r2 is Some {
        let j = json_text(line)->0;
        match (r1->0, r2->0) {
            (SessionRecord::User(u1), SessionRecord::User(u2)) => {
                let msg = field_of(j, "message"@)->0;
                lemma_content_text_unique(
                    field_of(msg, "content"@)->0,
                    u1.message.content,
                    u2.message.content,
                );
            },
            (SessionRecord::Assistant(a1), SessionRecord::Assistant(a2)) => {
                let msg = field_of(j, "message"@)->0;
                if let Some(JsonModel::Array(items)) = field_of(msg, "content"@) {
                    lemma_block_texts_unique(items, a1.message.content@, a2.message.content@);
                }
            },
            _ => {},
        }
    }
}

proof fn lemma_scan_decoded_unique(
    lines: Seq<String>,
    recs1: Seq<Option<SessionRecord>>,
    recs2: Seq<Option<SessionRecord>>,
)
    requires
        decoded_lines(lines, recs1),
        decoded_lines(lines, recs2),
    ensures
        scan_decoded(recs1) == scan_decoded(recs2),
    decreases lines.len(),
{
    if lines.len() > 0 {
        let n = lines.len() - 1;
        let init = lines.drop_last();
        assert(decoded_lines(init, recs1.drop_last())) by {
            assert forall|k: int| 0 <= k < init.len() implies line_decodes_to(
                #[trigger] init[k]@,
                recs1.drop_last()[k],
            ) by {
                assert(line_decodes_to(lines[k]@, recs1[k]));
            }
        }
        assert(decoded_lines(init, recs2.drop_last())) by {
            assert forall|k: int| 0 <= k < init.len() implies line_decodes_to(
                #[trigger] init[k]@,
                recs2.drop_last()[k],
            ) by {
                assert(line_decodes_to(lines[k]@, recs2[k]));
            }
        }
        lemma_scan_decoded_unique(init, recs1.drop_last(), recs2.drop_last());
        assert(line_decodes_to(lines[n]@, recs1[n]));
        assert(line_decodes_to(lines[n]@, recs2[n]));
        lemma_step_unique(scan_decoded(recs1.drop_last()), lines[n]@, recs1[n], recs2[n]);
    }
}

/// Scanning the same lines twice gives the same derived fields: however
/// each line decodes, the summary, title, first message, count, searchable
/// text and estimate agree.
pub proof fn lemma_scan_deterministic(
    lines: Seq<String>,
    recs1: Seq<Option<SessionRecord>>,
    recs2: Seq<Option<SessionRecord>>,
    md1: SessionMetadata,
    md2: SessionMetadata,
)
    requires
        decoded_lines(lines, recs1),
        decoded_lines(lines, recs2),
        metadata_is(scan_decoded(recs1), md1),
        metadata_is(scan_decoded(recs2), md2),
    ensures
        md1.created == md2.created,
        opt_chars(md1.summary) == opt_chars(md2.summary),
        opt_chars(md1.custom_title) == opt_chars(md2.custom_title),
        opt_chars(md1.first_message) == opt_chars(md2.first_message),
        md1.message_count == md2.message_count,
        md1.search_content@ == md2.search_content@,
        md1.token_count == md2.token_count,
{
    lemma_scan_decoded_unique(lines, recs1, recs2);
}

/// Scans the lines of a transcript, in order, into a session's derived fields.
pub fn scan_lines(lines: &Vec<String>) -> (r: SessionMetadata)
    ensures
        exists|recs: Seq<Option<SessionRecord>>|
            decoded_lines(lines@, recs) && metadata_is(scan_decoded(recs), r),
{
    let mut scan = MetadataScan::new();
    let ghost mut recs: Seq<Option<SessionRecord>> = Seq::empty();
    let mut i: usize = 0;
    while i < lines.len()
        invariant
            i <= lines.len(),
            scan.wf(),
            decoded_lines(lines@.take(i as int), recs),
            scan@ == scan_decoded(recs),
        decreases lines.len() - i,
    {
        let ghost before = scan@;
        scan.push_line(lines[i].as_str());
        let ghost r = choose|r: Option<SessionRecord>|
            line_decodes_to(lines@[i as int]@, r) && scan@ == scan_step_opt(before, r);
        proof {
            assert(recs.push(r).drop_last() =~= recs);
            recs = recs.push(r);
            assert(lines@.take(i as int + 1) =~= lines@.take(i as int).push(lines@[i as int]));
            assert forall|k: int| 0 <= k < i + 1 implies line_decodes_to(
                #[trigger] lines@.take(i as int + 1)[k]@,
                recs[k],
            ) by {
                if k < i {
                    assert(lines@.take(i as int)[k] == lines@.take(i as int + 1)[k]);
                }
            }
        }
        i = i + 1;
    }
    assert(lines@.take(lines.len() as int) =~= lines@);
    scan.finish()
}

impl Session {
    /// Stores the result of a scan, overwriting whatever an earlier scan stored.
    pub fn apply_metadata(&mut self, md: SessionMetadata)
        ensures
            final(self).created == md.created,
            opt_chars(final(self).summary) == opt_chars(md.summary),
            opt_chars(final(self).custom_title) == opt_chars(md.custom_title),
            opt_chars(final(self).first_message) == opt_chars(md.first_message),
            final(self).message_count == Some(md.message_count),
            opt_chars(final(self).search_content) == Some(md.search_content@),
            final(self).token_count == Some(md.token_count),
            final(self).id == old(self).id,
            final(self).project == old(self).project,
            final(self).project_raw == old(self).project_raw,
            final(self).path == old(self).path,
            final(self).size_bytes == old(self).size_bytes,
            final(self).modified == old(self).modified,
            final(self).is_agent == old(self).is_agent,
            final(self).has_directory == old(self).has_directory,
    {
        self.created = md.created;
        self.summary = md.summary;
        self.custom_title = md.custom_title;
        self.first_message = md.first_message;
        self.message_count = Some(md.message_count);
        self.search_content = Some(md.search_content);
        self.token_count = Some(md.token_count);
    }
}

/// Who a displayed message is from.
#[derive(Clone, Copy, Debug, PartialEq, Eq, Structural)]
pub enum MessageRole {
    User,
    Assistant,
    System,
}

/// A message ready for the preview: role, time (milliseconds since the Unix
/// epoch) and flattened text.
#[derive(Clone, Debug)]
pub struct DisplayMessage {
    pub role: MessageRole,
    pub timestamp: i64,
    pub content: String,
}

impl View for DisplayMessage {
    type V = (MessageRole, i64, Seq<char>);

    open spec fn view(&self) -> (MessageRole, i64, Seq<char>) {
        (self.role, self.timestamp, self.content@)
    }
}

/// The placeholder text of a system record.
pub open spec fn system_placeholder() -> Seq<char> {
    "[System]"@
}

/// The message a record shows in a preview: genuine non-empty user text,
/// non-empty assistant text, or a placeholder for a timed system record.
pub open spec fn display_of(r: SessionRecord) -> Option<(MessageRole, i64, Seq<char>)> {
    match r {
        SessionRecord::User(u) => {
            let t = content_text(u.message.content);
            if t.len() > 0 && !is_system_text(t) {
                Some((MessageRole::User, u.timestamp, t))
            } else {
                None
            }
        },
        SessionRecord::Assistant(a) => {
            let t = blocks_text(a.message.content@);
            if t.len() > 0 {
                Some((MessageRole::Assistant, a.timestamp, t))
            } else {
                None
            }
        },
        SessionRecord::System(s) => match s.timestamp {
            Some(ts) => Some((MessageRole::System, ts, system_placeholder())),
            None => None,
        },
        _ => None,
    }
}

/// The messages of the decoded lines, in file order.
pub open spec fn messages_of(recs: Seq<Option<SessionRecord>>) -> Seq<(MessageRole, i64, Seq<char>)>
    decreases recs.len(),
{
    if recs.len() == 0 {
        Seq::empty()
    } else {
        let rest = messages_of(recs.drop_last());
        match recs.last() {
            Some(r) => match display_of(r) {
                Some(m) => rest.push(m),
                None => rest,
            },
            None => rest,
        }
    }
}

/// The message a record shows in a preview, if any.
pub fn display_message(rec: &SessionRecord) -> (r: Option<DisplayMessage>)
    ensures
        match r {
            Some(m) => display_of(*rec) == Some(m@),
            None => display_of(*rec) is None,
        },
{
    match rec {
        SessionRecord::User(u) => {
            let content = u.message.content.as_text();
            if content.as_str().unicode_len() > 0 && !is_system_str(content.as_str()) {
                Some(DisplayMessage { role: MessageRole::User, timestamp: u.timestamp, content })
            } else {
                None
            }
        },
        SessionRecord::Assistant(a) => {
            let content = a.message.as_text();
            if content.as_str().unicode_len() > 0 {
                Some(
                    DisplayMessage { role: MessageRole::Assistant, timestamp: a.timestamp, content },
                )
            } else {
                None
            }
        },
        SessionRecord::System(s) => match s.timestamp {
            Some(ts) => Some(
                DisplayMessage {
                    role: MessageRole::System,
                    timestamp: ts,
                    content: String::from_str("[System]"),
                },
            ),
            None => None,
        },
        _ => None,
    }
}

/// The preview messages of a transcript's lines, in file order.
pub fn messages_from_lines(lines: &Vec<String>) -> (r: Vec<DisplayMessage>)
    ensures
        exists|recs: Seq<Option<SessionRecord>>|
            decoded_lines(lines@, recs) && r@.map_values(|m: DisplayMessage| m@) == messages_of(
                recs,
            ),
{
    let mut out: Vec<DisplayMessage> = Vec::new();
    let ghost mut recs: Seq<Option<SessionRecord>> = Seq::empty();
    let mut i: usize = 0;
    while i < lines.len()
        invariant
            i <= lines.len(),
            decoded_lines(lines@.take(i as int), recs),
            out@.map_values(|m: DisplayMessage| m@) == messages_of(recs),
        decreases lines.len() - i,
    {
        let r = decode_line(lines[i].as_str());
        match &r {
            Some(rec) => match display_message(rec) {
                Some(m) => out.push(m),
                None => {},
            },
            None => {},
        }
        proof {
            assert(recs.push(r).drop_last() =~= recs);
            recs = recs.push(r);
            assert(out@.map_values(|m: DisplayMessage| m@) =~= messages_of(recs));
            assert(lines@.take(i as int + 1) =~= lines@.take(i as int).push(lines@[i as int]));
            assert forall|k: int| 0 <= k < i + 1 implies line_decodes_to(
                #[trigger] lines@.take(i as int + 1)[k]@,
                recs[k],
            ) by {
                if k < i {
                    assert(lines@.take(i as int)[k] == lines@.take(i as int + 1)[k]);
                }
            }
        }
        i = i + 1;
    }
    assert(lines@.take(lines.len() as int) =~= lines@);
    out
}

/// The decoded lines that gave a record, in order.
pub open spec fn decodable(recs: Seq<Option<SessionRecord>>) -> Seq<Option<SessionRecord>>
    decreases recs.len(),
{
    if recs.len() == 0 {
        Seq::empty()
    } else {
        let rest = decodable(recs.drop_last());
        if recs.last() is Some {
            rest.push(recs.last())
        } else {
            rest
        }
    }
}

/// The lines whose decoding in `recs` gave a record, in order.
pub open spec fn decodable_lines(lines: Seq<String>, recs: Seq<Option<SessionRecord>>) -> Seq<String>
    decreases lines.len(),
{
    if lines.len() == 0 || recs.len() == 0 {
        Seq::empty()
    } else {
        let rest = decodable_lines(lines.drop_last(), recs.drop_last());
        if recs.last() is Some {
            rest.push(lines.last())
        } else {
            rest
        }
    }
}

proof fn lemma_decodable_same(recs: Seq<Option<SessionRecord>>)
    ensures
        scan_decoded(decodable(recs)) == scan_decoded(recs),
        messages_of(decodable(recs)) == messages_of(recs),
        forall|k: int| 0 <= k < decodable(recs).len() ==> (#[trigger] decodable(recs)[k]) is Some,
    decreases recs.len(),
{
    if recs.len() > 0 {
        let init = recs.drop_last();
        lemma_decodable_same(init);
        if recs.last() is Some {
            assert(decodable(init).push(recs.last()).drop_last() =~= decodable(init));
        }
    }
}

proof fn lemma_decodable_lines(lines: Seq<String>, recs: Seq<Option<SessionRecord>>)
    requires
        decoded_lines(lines, recs),
    ensures
        decoded_lines(decodable_lines(lines, recs), decodable(recs)),
    decreases lines.len(),
{
    if lines.len() > 0 {
        let init = lines.drop_last();
        let rinit = recs.drop_last();
        assert(decoded_lines(init, rinit)) by {
            assert forall|k: int| 0 <= k < init.len() implies line_decodes_to(
                #[trigger] init[k]@,
                rinit[k],
            ) by {
                assert(line_decodes_to(lines[k]@, recs[k]));
            }
        }
        lemma_decodable_lines(init, rinit);
        let n = lines.len() - 1;
        assert(line_decodes_to(lines[n]@, recs[n]));
    }
}

proof fn lemma_display_unique(line: Seq<char>, r1: Option<SessionRecord>, r2: Option<SessionRecord>)
    requires
        line_decodes_to(line, r1),
        line_decodes_to(line, r2),
    ensures
        r1 is Some == r2 is Some,
        r1 is Some ==> display_of(r1->0) == display_of(r2->0),
{
    if r1 is Some && r2 is Some {
        let j = json_text(line)->0;
        match (r1->0, r2->0) {
            (SessionRecord::User(u1), SessionRecord::User(u2)) => {
                let msg = field_of(j, "message"@)->0;
                lemma_content_text_unique(
                    field_of(msg, "content"@)->0,
                    u1.message.content,
                    u2.message.content,
                );
            },
            (SessionRecord::Assistant(a1), SessionRecord::Assistant(a2)) => {
                let msg = field_of(j, "message"@)->0;
                if let Some(JsonModel::Array(items)) = field_of(msg, "content"@) {
                    lemma_block_texts_unique(items, a1.message.content@, a2.message.content@);
                }
            },
            _ => {},
        }
    }
}

proof fn lemma_messages_unique(
    lines: Seq<String>,
    recs1: Seq<Option<SessionRecord>>,
    recs2: Seq<Option<SessionRecord>>,
)
    requires
        decoded_lines(lines, recs1),
        decoded_lines(lines, recs2),
    ensures
        messages_of(recs1) == messages_of(recs2),
        forall|k: int| 0 <= k < recs1.len() ==> (#[trigger] recs1[k] is Some) == (recs2[k] is Some),
    decreases lines.len(),
{
    if lines.len() > 0 {
        let n = lines.len() - 1;
        let init = lines.drop_last();
        assert(decoded_lines(init, recs1.drop_last())) by {
            assert forall|k: int| 0 <= k < init.len() implies line_decodes_to(
                #[trigger] init[k]@,
                recs1.drop_last()[k],
            ) by {
                assert(line_decodes_to(lines[k]@, recs1[k]));
            }
        }
        assert(decoded_lines(init, recs2.drop_last())) by {
            assert forall|k: int| 0 <= k < init.len() implies line_decodes_to(
                #[trigger] init[k]@,
                recs2.drop_last()[k],
            ) by {
                assert(line_decodes_to(lines[k]@, recs2[k]));
            }
        }
        lemma_messages_unique(init, recs1.drop_last(), recs2.drop_last());
        assert(line_decodes_to(lines[n]@, recs1[n]));
        assert(line_decodes_to(lines[n]@, recs2[n]));
        lemma_display_unique(lines[n]@, recs1[n], recs2[n]);
        assert forall|k: int| 0 <= k < recs1.len() implies (#[trigger] recs1[k] is Some) == (
        recs2[k] is Some) by {
            if k < n {
                assert(recs1.drop_last()[k] == recs1[k]);
                assert(recs2.drop_last()[k] == recs2[k]);
            }
        }
    }
}

/// Lines that do not decode (empty, not JSON, wrong shape) count for
/// nothing: every line kept in `decodable_lines` decodes to a record, and
/// however those lines are decoded, the scan and the preview messages are
/// those of the whole transcript.
pub proof fn lemma_undecodable_lines_ignored(
    lines: Seq<String>,
    recs: Seq<Option<SessionRecord>>,
    kept_recs: Seq<Option<SessionRecord>>,
)
    requires
        decoded_lines(lines, recs),
        decoded_lines(decodable_lines(lines, recs), kept_recs),
    ensures
        forall|k: int| 0 <= k < kept_recs.len() ==> (#[trigger] kept_recs[k]) is Some,
        scan_decoded(kept_recs) == scan_decoded(recs),
        messages_of(kept_recs) == messages_of(recs),
{
    let kept = decodable_lines(lines, recs);
    lemma_decodable_same(recs);
    lemma_decodable_lines(lines, recs);
    lemma_scan_decoded_unique(kept, decodable(recs), kept_recs);
    lemma_messages_unique(kept, decodable(recs), kept_recs);
    assert forall|k: int| 0 <= k < kept_recs.len() implies (#[trigger] kept_recs[k]) is Some by {
        assert(decodable(recs)[k] is Some);
    }
}

} // verus!
