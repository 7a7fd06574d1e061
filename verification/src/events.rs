//! The message substitution pipeline: selecting a member for an inbound
//! message, stripping the matched trigger from the content, translating
//! attachments into blocks, and deciding what the platform must be asked
//! to do. The platform calls themselves (post, delete) are the caller's:
//! the pipeline hands out a [`SubstitutionPlan`] and records the audit row
//! once the caller reports the posted message's id.

use vstd::prelude::*;
use crate::db::Db;
use crate::member;
use crate::member::{clone_opt_string, Member, TriggeredMember};
use crate::message::MessageLog;
use crate::system::{beats, fronting_set, has_candidate, is_candidate, SlackOauthToken, System};
use crate::text::{str_eq, strip_prefix_string, strip_suffix_string, text_ends_with,
    text_starts_with, trim_end_spaces, trim_end_string, trim_start_spaces, trim_start_string};
use crate::trigger::Type;
use crate::trust::Trusted;

verus! {

/// The text with one occurrence of the pattern stripped from the position
/// the trigger kind asks for, together with the whitespace that separated
/// the pattern from the message body: with Prefix trigger `J:`, `J: hello`
/// becomes `hello`. Text that does not carry the pattern at that position,
/// and the empty pattern (which marks a fronting repost), leave the text
/// unchanged.
pub open spec fn spec_strip(text: Seq<char>, pat: Seq<char>, typ: Type) -> Seq<char> {
    match typ {
        Type::Prefix => if pat.len() > 0 && text_starts_with(text, pat) {
            trim_start_spaces(text.subrange(pat.len() as int, text.len() as int))
        } else {
            text
        },
        Type::Suffix => if pat.len() > 0 && text_ends_with(text, pat) {
            trim_end_spaces(text.subrange(0, text.len() - pat.len()))
        } else {
            text
        },
    }
}

/// Strips one occurrence of the pattern, and the whitespace next to it,
/// from the start or end of the text.
pub fn strip_trigger(text: &str, pat: &str, typ: Type) -> (r: String)
    ensures
        r@ == spec_strip(text@, pat@, typ),
{
    if pat.unicode_len() == 0 {
        return text.to_owned();
    }
    match typ {
        Type::Prefix => {
            match strip_prefix_string(text, pat) {
                Some(s) => trim_start_string(s.as_str()),
                None => text.to_owned(),
            }
        },
        Type::Suffix => {
            match strip_suffix_string(text, pat) {
                Some(s) => trim_end_string(s.as_str()),
                None => text.to_owned(),
            }
        },
    }
}

/// One top-level element of a rich-text block, carrying its leading text
/// payload when it has one (a mention or an emoji element has none).
#[derive(Debug)]
pub struct Segment {
    pub text: Option<String>,
}

impl Segment {
    /// A field-for-field copy of the segment.
    pub fn dup(&self) -> (r: Segment)
        ensures
            r == *self,
    {
        Segment { text: clone_opt_string(&self.text) }
    }
}

/// A structured content block. The pipeline rewrites rich-text blocks and
/// appends blocks for attachments; everything else passes through opaque.
#[derive(Debug)]
pub enum Block {
    RichText { elements: Vec<Segment> },
    /// An inline image referencing the platform's internal file id.
    Image { file_id: String },
    /// A link line naming an attached file and its permalink; rendered as
    /// markdown by the caller, with a video marked as such.
    FileLink { video: bool, name: String, permalink: String },
    Opaque,
}

/// The two blocks carry the same content (a rich-text block's segment
/// list is compared element for element).
pub open spec fn block_like(a: Block, b: Block) -> bool {
    match a {
        Block::RichText { elements: e1 } => b matches Block::RichText { elements: e2 } && e1@
            == e2@,
        _ => b == a,
    }
}

impl Block {
    /// A copy of the block with the same content.
    pub fn dup(&self) -> (r: Block)
        ensures
            block_like(*self, r),
    {
        match self {
            Block::RichText { elements } => {
                let n = elements.len();
                let mut es: Vec<Segment> = Vec::new();
                let mut j: usize = 0;
                while j < n
                    invariant
                        0 <= j <= n,
                        n == elements@.len(),
                        es@.len() == j,
                        forall|k: int| 0 <= k < j ==> es@[k] == elements@[k],
                    decreases n - j,
                {
                    es.push(elements[j].dup());
                    j = j + 1;
                }
                proof {
                    assert(es@ =~= elements@);
                }
                Block::RichText { elements: es }
            },
            Block::Image { file_id } => Block::Image { file_id: file_id.clone() },
            Block::FileLink { video, name, permalink } => Block::FileLink {
                video: *video,
                name: name.clone(),
                permalink: permalink.clone(),
            },
            Block::Opaque => Block::Opaque,
        }
    }
}

/// What the pipeline reads of an attached file.
#[derive(Debug)]
pub struct FileInfo {
    /// The platform's internal file id.
    pub id: String,
    pub name: Option<String>,
    pub permalink: Option<String>,
    /// The platform's file type tag, such as `png` or `mp4`.
    pub filetype: Option<String>,
}

impl FileInfo {
    /// A field-for-field copy of the record.
    pub fn dup(&self) -> (r: FileInfo)
        ensures
            r == *self,
    {
        FileInfo {
            id: self.id.clone(),
            name: clone_opt_string(&self.name),
            permalink: clone_opt_string(&self.permalink),
            filetype: clone_opt_string(&self.filetype),
        }
    }
}

/// A message's content: its plain text, its structured blocks, and its
/// attachments.
#[derive(Debug)]
pub struct MessageContent {
    pub text: Option<String>,
    pub blocks: Option<Vec<Block>>,
    pub files: Option<Vec<FileInfo>>,
}

/// File types the platform can show inline as an image.
pub open spec fn is_image_type(t: Seq<char>) -> bool {
    ||| t == "png"@
    ||| t == "jpg"@
    ||| t == "jpeg"@
    ||| t == "gif"@
    ||| t == "webp"@
}

/// File types that are videos; they cannot be embedded and become links.
pub open spec fn is_video_type(t: Seq<char>) -> bool {
    ||| t == "mp4"@
    ||| t == "mpg"@
    ||| t == "mpeg"@
    ||| t == "mkv"@
    ||| t == "avi"@
    ||| t == "mov"@
    ||| t == "ogv"@
    ||| t == "wmv"@
}

/// The link-line block an attachment becomes: one for every non-image file
/// whose name and permalink are known. Files without a type are skipped.
pub open spec fn spec_markdown_block(f: FileInfo) -> Option<Block> {
    match f.filetype {
        Some(t) => {
            if is_image_type(t@) {
                None
            } else {
                match (f.name, f.permalink) {
                    (Some(n), Some(p)) => Some(
                        Block::FileLink { video: is_video_type(t@), name: n, permalink: p },
                    ),
                    _ => None,
                }
            }
        },
        None => None,
    }
}

/// The inline image block an attachment becomes: one for every image file.
pub open spec fn spec_image_block(f: FileInfo) -> Option<Block> {
    match f.filetype {
        Some(t) => {
            if is_image_type(t@) {
                Some(Block::Image { file_id: f.id })
            } else {
                None
            }
        },
        None => None,
    }
}

/// The link-line blocks of a file list, in file order.
pub open spec fn spec_md_blocks(files: Seq<FileInfo>) -> Seq<Block>
    decreases files.len(),
{
    if files.len() == 0 {
        Seq::empty()
    } else {
        spec_md_blocks(files.drop_last()) + match spec_markdown_block(files.last()) {
            Some(b) => seq![b],
            None => Seq::empty(),
        }
    }
}

/// The image blocks of a file list, in file order.
pub open spec fn spec_image_blocks(files: Seq<FileInfo>) -> Seq<Block>
    decreases files.len(),
{
    if files.len() == 0 {
        Seq::empty()
    } else {
        spec_image_blocks(files.drop_last()) + match spec_image_block(files.last()) {
            Some(b) => seq![b],
            None => Seq::empty(),
        }
    }
}

/// How one segment changes under rewriting: its text payload loses the
/// trigger pattern; a segment without text stays as it is.
pub open spec fn segment_rewritten(old_s: Segment, new_s: Segment, pat: Seq<char>, typ: Type) -> bool {
    match old_s.text {
        Some(t) => new_s.text matches Some(t2) && t2@ == spec_strip(t@, pat, typ),
        None => new_s == old_s,
    }
}

/// How a rich-text segment list changes: only the first segment can lose a
/// prefix and only the last can lose a suffix; count and order are kept.
pub open spec fn rich_rewritten(
    es: Seq<Segment>,
    es2: Seq<Segment>,
    pat: Seq<char>,
    typ: Type,
) -> bool {
    &&& es2.len() == es.len()
    &&& forall|j: int|
        0 <= j < es.len() ==> {
            if (typ == Type::Prefix && j == 0) || (typ == Type::Suffix && j == es.len() - 1) {
                segment_rewritten(es[j], #[trigger] es2[j], pat, typ)
            } else {
                es2[j] == es[j]
            }
        }
}

/// How one block changes under rewriting: rich text is rewritten, every
/// other block passes through unchanged.
pub open spec fn block_rewritten(old_b: Block, new_b: Block, pat: Seq<char>, typ: Type) -> bool {
    match old_b {
        Block::RichText { elements } => new_b matches Block::RichText { elements: es2 }
            && rich_rewritten(elements@, es2@, pat, typ),
        _ => new_b == old_b,
    }
}

/// How a whole content changes under the rewriter alone (before
/// attachment translation): the plain text and the rich-text payloads
/// lose the pattern; files are untouched.
pub open spec fn content_rewritten(
    old_c: MessageContent,
    new_c: MessageContent,
    pat: Seq<char>,
    typ: Type,
) -> bool {
    &&& match old_c.text {
        Some(t) => new_c.text matches Some(t2) && t2@ == spec_strip(t@, pat, typ),
        None => new_c.text is None,
    }
    &&& match old_c.blocks {
        Some(bs) => new_c.blocks matches Some(bs2) && bs2@.len() == bs@.len() && (forall|i: int|
            0 <= i < bs@.len() ==> block_rewritten(bs@[i], #[trigger] bs2@[i], pat, typ)),
        None => new_c.blocks is None,
    }
    &&& new_c.files == old_c.files
}

/// Rewrites one block.
fn rewrite_block(b: &Block, member: &TriggeredMember) -> (r: Block)
    ensures
        block_rewritten(*b, r, member.trigger_text@, member.typ),
{
    match b {
        Block::RichText { elements } => {
            let n = elements.len();
            let mut es2: Vec<Segment> = Vec::new();
            let mut j: usize = 0;
            while j < n
                invariant
                    0 <= j <= n,
                    n == elements@.len(),
                    es2@.len() == j,
                    forall|k: int|
                        0 <= k < j ==> {
                            if (member.typ == Type::Prefix && k == 0) || (member.typ == Type::Suffix
                                && k == n - 1) {
                                segment_rewritten(
                                    elements@[k],
                                    #[trigger] es2@[k],
                                    member.trigger_text@,
                                    member.typ,
                                )
                            } else {
                                es2@[k] == elements@[k]
                            }
                        },
                decreases n - j,
            {
                let affected = (member.typ == Type::Prefix && j == 0) || (member.typ == Type::Suffix
                    && j == n - 1);
                if affected {
                    match &elements[j].text {
                        Some(t) => {
                            es2.push(Segment { text: Some(strip_trigger(
                                t.as_str(),
                                member.trigger_text.as_str(),
                                member.typ,
                            )) });
                        },
                        None => {
                            es2.push(elements[j].dup());
                        },
                    }
                } else {
                    es2.push(elements[j].dup());
                }
                j = j + 1;
            }
            Block::RichText { elements: es2 }
        },
        _ => b.dup(),
    }
}

/// Strips the matched trigger from a message's content: one occurrence of
/// the pattern, and the whitespace separating it from the body, from the
/// start (Prefix) or end (Suffix) of the plain text, and the same from the
/// first or last rich-text segment. Content that does not carry the
/// pattern at that position is left unchanged. Segment count and order
/// never change.
pub fn rewrite_content(content: &mut MessageContent, member: &TriggeredMember)
    ensures
        content_rewritten(*old(content), *final(content), member.trigger_text@, member.typ),
{
    let new_text = match &content.text {
        Some(t) => Some(strip_trigger(t.as_str(), member.trigger_text.as_str(), member.typ)),
        None => None,
    };
    content.text = new_text;
    let new_blocks = match &content.blocks {
        Some(bs) => {
            let n = bs.len();
            let mut bs2: Vec<Block> = Vec::new();
            let mut i: usize = 0;
            while i < n
                invariant
                    0 <= i <= n,
                    n == bs@.len(),
                    bs2@.len() == i,
                    forall|k: int|
                        0 <= k < i ==> block_rewritten(
                            bs@[k],
                            #[trigger] bs2@[k],
                            member.trigger_text@,
                            member.typ,
                        ),
                decreases n - i,
            {
                bs2.push(rewrite_block(&bs[i], member));
                i = i + 1;
            }
            Some(bs2)
        },
        None => None,
    };
    content.blocks = new_blocks;
}

/// Whether the platform can show this file type inline as an image.
pub fn image_type(t: &str) -> (r: bool)
    ensures
        r == is_image_type(t@),
{
    str_eq(t, "png") || str_eq(t, "jpg") || str_eq(t, "jpeg") || str_eq(t, "gif") || str_eq(
        t,
        "webp",
    )
}

/// Whether this file type is a video.
pub fn video_type(t: &str) -> (r: bool)
    ensures
        r == is_video_type(t@),
{
    str_eq(t, "mp4") || str_eq(t, "mpg") || str_eq(t, "mpeg") || str_eq(t, "mkv") || str_eq(
        t,
        "avi",
    ) || str_eq(t, "mov") || str_eq(t, "ogv") || str_eq(t, "wmv")
}

/// The link-line block for one attachment, when it gets one.
pub fn file_markdown_block(f: &FileInfo) -> (r: Option<Block>)
    ensures
        r == spec_markdown_block(*f),
{
    match &f.filetype {
        Some(t) => {
            if image_type(t.as_str()) {
                None
            } else {
                match (&f.name, &f.permalink) {
                    (Some(n), Some(p)) => Some(
                        Block::FileLink {
                            video: video_type(t.as_str()),
                            name: n.clone(),
                            permalink: p.clone(),
                        },
                    ),
                    _ => None,
                }
            }
        },
        None => None,
    }
}

/// The inline image block for one attachment, when it gets one.
pub fn file_image_block(f: &FileInfo) -> (r: Option<Block>)
    ensures
        r == spec_image_block(*f),
{
    match &f.filetype {
        Some(t) => {
            if image_type(t.as_str()) {
                Some(Block::Image { file_id: f.id.clone() })
            } else {
                None
            }
        },
        None => None,
    }
}

/// How the posted content relates to the inbound one: text and rich-text
/// payloads are stripped of the pattern, then one link-line block per
/// non-image attachment and one image block per image attachment are
/// appended, in that order; the attachment list itself is consumed.
pub open spec fn plan_content_for(
    c: MessageContent,
    pc: MessageContent,
    pat: Seq<char>,
    typ: Type,
) -> bool {
    &&& match c.text {
        Some(t) => pc.text matches Some(t2) && t2@ == spec_strip(t@, pat, typ),
        None => pc.text is None,
    }
    &&& pc.files is None
    &&& ({
        let extra = match c.files {
            Some(fs) => spec_md_blocks(fs@) + spec_image_blocks(fs@),
            None => Seq::<Block>::empty(),
        };
        match c.blocks {
            Some(bs) => pc.blocks matches Some(bs2) && bs2@.len() == bs@.len() + extra.len() && (
            forall|i: int|
                0 <= i < bs@.len() ==> block_rewritten(bs@[i], #[trigger] bs2@[i], pat, typ))
                && bs2@.subrange(bs@.len() as int, bs2@.len() as int) == extra,
            None => if c.files is Some {
                pc.blocks matches Some(bs2) && bs2@ == extra
            } else {
                pc.blocks is None
            },
        }
    })
}

/// Rewrites the content for posting under the selected member: the matched
/// trigger is stripped, and the attachments become blocks.
pub fn rewrite_message_content(content: MessageContent, member: &TriggeredMember) -> (r:
    MessageContent)
    ensures
        plan_content_for(content, r, member.trigger_text@, member.typ),
{
    let mut c = content;
    rewrite_content(&mut c, member);
    let MessageContent { text, blocks, files } = c;
    match files {
        None => {
            proof {
                match &blocks {
                    Some(b2) => {
                        assert(b2@.subrange(b2@.len() as int, b2@.len() as int)
                            =~= Seq::<Block>::empty());
                    },
                    None => {},
                }
            }
            MessageContent { text, blocks, files: None }
        },
        Some(fs) => {
            let mut bs2: Vec<Block> = match blocks {
                Some(b) => b,
                None => Vec::new(),
            };
            let ghost base = bs2@;
            let n = fs.len();
            let mut i: usize = 0;
            while i < n
                invariant
                    0 <= i <= n,
                    n == fs@.len(),
                    bs2@ == base + spec_md_blocks(fs@.subrange(0, i as int)),
                decreases n - i,
            {
                proof {
                    assert(fs@.subrange(0, i + 1).drop_last() =~= fs@.subrange(0, i as int));
                    assert(fs@.subrange(0, i + 1).last() == fs@[i as int]);
                }
                match file_markdown_block(&fs[i]) {
                    Some(b) => {
                        bs2.push(b);
                        proof {
                            assert(bs2@ =~= base + spec_md_blocks(fs@.subrange(0, i + 1)));
                        }
                    },
                    None => {
                        proof {
                            assert(bs2@ =~= base + spec_md_blocks(fs@.subrange(0, i + 1)));
                        }
                    },
                }
                i = i + 1;
            }
            proof {
                assert(fs@.subrange(0, n as int) =~= fs@);
            }
            let ghost base2 = bs2@;
            let mut i2: usize = 0;
            while i2 < n
                invariant
                    0 <= i2 <= n,
                    n == fs@.len(),
                    bs2@ == base2 + spec_image_blocks(fs@.subrange(0, i2 as int)),
                decreases n - i2,
            {
                proof {
                    assert(fs@.subrange(0, i2 + 1).drop_last() =~= fs@.subrange(0, i2 as int));
                    assert(fs@.subrange(0, i2 + 1).last() == fs@[i2 as int]);
                }
                match file_image_block(&fs[i2]) {
                    Some(b) => {
                        bs2.push(b);
                        proof {
                            assert(bs2@ =~= base2 + spec_image_blocks(fs@.subrange(0, i2 + 1)));
                        }
                    },
                    None => {
                        proof {
                            assert(bs2@ =~= base2 + spec_image_blocks(fs@.subrange(0, i2 + 1)));
                        }
                    },
                }
                i2 = i2 + 1;
            }
            proof {
                assert(fs@.subrange(0, n as int) =~= fs@);
                assert(bs2@ =~= base + (spec_md_blocks(fs@) + spec_image_blocks(fs@)));
                assert(bs2@.subrange(base.len() as int, bs2@.len() as int) =~= spec_md_blocks(fs@)
                    + spec_image_blocks(fs@));
                assert forall|k: int| 0 <= k < base.len() implies bs2@[k] == base[k] by {}
                if base.len() == 0 {
                    assert(bs2@ =~= spec_md_blocks(fs@) + spec_image_blocks(fs@));
                }
            }
            MessageContent { text, blocks: Some(bs2), files: None }
        },
    }
}

/// What the pipeline reads of an inbound message event.
#[derive(Debug)]
pub struct MessageEvent {
    /// The platform account that sent the message, when known.
    pub sender: Option<String>,
    /// The channel the message was posted in, when known.
    pub channel: Option<String>,
    /// The platform's id of the original message.
    pub ts: String,
    pub content: Option<MessageContent>,
}

/// The platform work one substitution asks of the caller: post `content`
/// in `channel` under the member's display name and avatar with the bot
/// credential, record the new message's id with
/// [`MessageLog::insert`], and delete the original message (`original_ts`)
/// with the owner's own credential (`user_token`), in that order.
#[derive(Debug)]
pub struct SubstitutionPlan {
    pub channel: String,
    pub original_ts: String,
    pub member_id: member::Id<Trusted>,
    pub display_name: String,
    pub icon_url: Option<String>,
    pub content: MessageContent,
    pub user_token: SlackOauthToken,
}

/// The matcher will select a trigger for this text in this system.
pub open spec fn matcher_selects(db: Db, system_id: int, text: Seq<char>) -> bool {
    text.len() > 0 && has_candidate(db, system_id, text)
}

/// The pipeline runs for this event: the sender is known and owns a
/// system, the event carries a channel and content, and either a trigger
/// matches the text or the system currently fronts a member.
pub open spec fn pipeline_runs(db: Db, e: MessageEvent) -> bool {
    &&& e.sender matches Some(s) && db.has_system_owned_by(s@)
    &&& e.channel is Some
    &&& e.content is Some
    &&& ({
        let sys = db.spec_system_by_owner(e.sender->Some_0@);
        ||| (e.content->Some_0.text matches Some(t) && matcher_selects(db, sys.id@, t@))
        ||| sys.currently_fronting_member_id is Some
    })
}

/// A plan built for a trigger match: the winning trigger (longest pattern,
/// then lowest id) names the member, the content loses that pattern, and
/// the fronting pointer moves to the member exactly when the system asks
/// for auto-switching.
pub open spec fn triggered_outcome(
    pre: Db,
    post: Db,
    sys: System,
    c: MessageContent,
    p: SubstitutionPlan,
) -> bool {
    exists|i: int|
        {
            &&& #[trigger] is_candidate(pre, sys.id@, c.text->Some_0@, i)
            &&& forall|j: int|
                #[trigger] is_candidate(pre, sys.id@, c.text->Some_0@, j) ==> beats(pre, i, j)
            &&& p.member_id@ == pre.triggers@[i].member_id@
            &&& p.display_name@ == pre.spec_member(pre.triggers@[i].member_id@).display_name@
            &&& p.icon_url == pre.spec_member(pre.triggers@[i].member_id@).profile_picture_url
            &&& plan_content_for(c, p.content, pre.triggers@[i].text@, pre.triggers@[i].typ)
            &&& if sys.auto_switch_on_trigger {
                fronting_set(pre, post, sys.id@, Some(pre.triggers@[i].member_id@))
            } else {
                post == pre
            }
        }
}

/// A plan built for the fronting fallback: the message is reposted as the
/// currently fronting member with its content unchanged (the empty pattern
/// strips nothing), and the store does not change.
pub open spec fn fronting_outcome(
    pre: Db,
    post: Db,
    sys: System,
    c: MessageContent,
    p: SubstitutionPlan,
) -> bool {
    &&& post == pre
    &&& sys.currently_fronting_member_id matches Some(m) && p.member_id == m
        && p.display_name@ == pre.spec_member(m@).display_name@ && p.icon_url == pre.spec_member(
        m@,
    ).profile_picture_url
    &&& plan_content_for(c, p.content, Seq::<char>::empty(), Type::Prefix)
}

/// Everything a returned plan promises, selection precedence included: a
/// matching trigger wins; otherwise the fronting member is used verbatim.
pub open spec fn substitution_outcome(
    pre: Db,
    post: Db,
    e: MessageEvent,
    p: SubstitutionPlan,
) -> bool {
    let sys = pre.spec_system_by_owner(e.sender->Some_0@);
    let c = e.content->Some_0;
    &&& p.channel == e.channel->Some_0
    &&& p.original_ts == e.ts
    &&& p.user_token == sys.slack_oauth_token
    &&& if c.text matches Some(t) && matcher_selects(pre, sys.id@, t@) {
        triggered_outcome(pre, post, sys, c, p)
    } else {
        fronting_outcome(pre, post, sys, c, p)
    }
}

/// The fronting fallback, whole: when the sender's system fronts a member
/// and no trigger matches the text, the pipeline is owed a plan; the run
/// itself changes nothing in the store; the plan reposts as the fronting
/// member with the text unchanged, names the original message (in its
/// channel) for deletion under the owner's own credential; and recording
/// the posted message's id afterwards adds exactly one log row mapping
/// that id to the fronting member.
pub proof fn lemma_fronting_fallback_run(
    pre: Db,
    mid: Db,
    post: Db,
    e: MessageEvent,
    p: SubstitutionPlan,
    posted_ts: Seq<char>,
    l: MessageLog,
)
    requires
        pre.wf(),
        e.sender matches Some(s) && pre.has_system_owned_by(s@),
        e.channel is Some,
        e.content is Some,
        e.content->Some_0.text matches Some(t) ==> !matcher_selects(
            pre,
            pre.spec_system_by_owner(e.sender->Some_0@).id@,
            t@,
        ),
        pre.spec_system_by_owner(e.sender->Some_0@).currently_fronting_member_id is Some,
        substitution_outcome(pre, mid, e, p),
        crate::message::log_insert_post(mid, post, p.member_id, posted_ts, l),
    ensures
        pipeline_runs(pre, e),
        mid == pre,
        p.member_id == pre.spec_system_by_owner(
            e.sender->Some_0@,
        ).currently_fronting_member_id->Some_0,
        e.content->Some_0.text matches Some(t) ==> (p.content.text matches Some(t2) && t2@ == t@),
        p.channel == e.channel->Some_0,
        p.original_ts == e.ts,
        p.user_token == pre.spec_system_by_owner(e.sender->Some_0@).slack_oauth_token,
        post.message_logs@ == pre.message_logs@.push(l),
        l.member_id == p.member_id,
        l.message_id@ == posted_ts,
{
    let c = e.content->Some_0;
    match c.text {
        Some(t) => {
            lemma_empty_pattern_keeps_text(t@);
        },
        None => {},
    }
}

/// The triggered substitution, whole: with one enabled member's trigger
/// the sole match for the message, the pipeline is owed a plan; the plan
/// posts as that member with the trigger pattern and its separating
/// whitespace stripped; the fronting pointer moves to the member exactly
/// when the system asks for auto-switching, and it moves in the store
/// before the plan is handed out — so before the post, and a failed post
/// cannot undo it; the plan names the original message for deletion under
/// the owner's own credential; and recording the posted message's id
/// afterwards adds exactly one log row mapping that id to the member.
pub proof fn lemma_triggered_run(
    pre: Db,
    mid: Db,
    post: Db,
    e: MessageEvent,
    p: SubstitutionPlan,
    i: int,
    posted_ts: Seq<char>,
    l: MessageLog,
)
    requires
        pre.wf(),
        e.sender matches Some(s) && pre.has_system_owned_by(s@),
        e.channel is Some,
        e.content is Some,
        e.content->Some_0.text is Some,
        e.content->Some_0.text->Some_0@.len() > 0,
        is_candidate(
            pre,
            pre.spec_system_by_owner(e.sender->Some_0@).id@,
            e.content->Some_0.text->Some_0@,
            i,
        ),
        forall|j: int|
            #[trigger] is_candidate(
                pre,
                pre.spec_system_by_owner(e.sender->Some_0@).id@,
                e.content->Some_0.text->Some_0@,
                j,
            ) ==> j == i,
        substitution_outcome(pre, mid, e, p),
        crate::message::log_insert_post(mid, post, p.member_id, posted_ts, l),
    ensures
        pipeline_runs(pre, e),
        p.member_id@ == pre.triggers@[i].member_id@,
        p.display_name@ == pre.spec_member(pre.triggers@[i].member_id@).display_name@,
        p.content.text matches Some(t2) && t2@ == spec_strip(
            e.content->Some_0.text->Some_0@,
            pre.triggers@[i].text@,
            pre.triggers@[i].typ,
        ),
        p.channel == e.channel->Some_0,
        p.original_ts == e.ts,
        p.user_token == pre.spec_system_by_owner(e.sender->Some_0@).slack_oauth_token,
        pre.spec_system_by_owner(e.sender->Some_0@).auto_switch_on_trigger ==> fronting_set(
            pre,
            mid,
            pre.spec_system_by_owner(e.sender->Some_0@).id@,
            Some(pre.triggers@[i].member_id@),
        ),
        !pre.spec_system_by_owner(e.sender->Some_0@).auto_switch_on_trigger ==> mid == pre,
        post.message_logs@ == mid.message_logs@.push(l),
        l.member_id == p.member_id,
        l.message_id@ == posted_ts,
{
    let sys = pre.spec_system_by_owner(e.sender->Some_0@);
    let c = e.content->Some_0;
    let t = c.text->Some_0;
    assert(has_candidate(pre, sys.id@, t@));
    assert(matcher_selects(pre, sys.id@, t@));
    let k = choose|k: int|
        {
            &&& #[trigger] is_candidate(pre, sys.id@, c.text->Some_0@, k)
            &&& forall|j: int|
                #[trigger] is_candidate(pre, sys.id@, c.text->Some_0@, j) ==> beats(pre, k, j)
            &&& p.member_id@ == pre.triggers@[k].member_id@
            &&& p.display_name@ == pre.spec_member(pre.triggers@[k].member_id@).display_name@
            &&& p.icon_url == pre.spec_member(pre.triggers@[k].member_id@).profile_picture_url
            &&& plan_content_for(c, p.content, pre.triggers@[k].text@, pre.triggers@[k].typ)
            &&& if sys.auto_switch_on_trigger {
                fronting_set(pre, mid, sys.id@, Some(pre.triggers@[k].member_id@))
            } else {
                mid == pre
            }
        };
    assert(k == i);
}

/// Decides what, if anything, is to be substituted for an inbound message.
///
/// Selection precedence: (a) a matching trigger of an enabled member; (b)
/// the currently fronting member, verbatim; (c) nothing — the message is
/// left untouched and the store does not change. On a trigger match with
/// auto-switching on, the fronting pointer moves before the plan is handed
/// out, so the switch survives even a failed post.
pub fn handle_message(db: &mut Db, event: MessageEvent) -> (r: Option<SubstitutionPlan>)
    requires
        old(db).wf(),
    ensures
        final(db).wf(),
        r is Some <==> pipeline_runs(*old(db), event),
        !pipeline_runs(*old(db), event) ==> *final(db) == *old(db),
        r matches Some(p) ==> substitution_outcome(*old(db), *final(db), event, p),
{
    let sender = match &event.sender {
        Some(s) => s,
        None => {
            return None;
        },
    };
    let user_id = crate::user::Id::from_authenticated(sender.clone());
    let system = match System::fetch_by_user_id(&user_id, db) {
        Some(s) => s,
        None => {
            return None;
        },
    };
    let channel = match &event.channel {
        Some(c) => c,
        None => {
            return None;
        },
    };
    let content = match event.content {
        Some(c) => c,
        None => {
            return None;
        },
    };
    proof {
        let w = choose|w: int|
            0 <= w < db.systems@.len() && (#[trigger] db.systems@[w]).owner_id@ == user_id@;
        db.lemma_system_index_by_owner(w);
        assert(db.has_system(system.id@));
        db.lemma_system_index(w);
    }
    let tm_opt = match &content.text {
        Some(t) => system.find_member_by_trigger_rules(db, t.as_str()),
        None => None,
    };
    match tm_opt {
        Some(tm) => {
            proof {
                let t = content.text->Some_0;
                let i = choose|i: int|
                    {
                        &&& #[trigger] is_candidate(*db, system.id@, t@, i)
                        &&& forall|j: int|
                            #[trigger] is_candidate(*db, system.id@, t@, j) ==> beats(*db, i, j)
                        &&& tm.id@ == db.triggers@[i].member_id@
                        &&& tm.trigger_text@ == db.triggers@[i].text@
                        &&& tm.typ == db.triggers@[i].typ
                        &&& tm.display_name@ == db.spec_member(
                            db.triggers@[i].member_id@,
                        ).display_name@
                        &&& tm.profile_picture_url == db.spec_member(
                            db.triggers@[i].member_id@,
                        ).profile_picture_url
                    };
                assert(db.has_member_in_system(db.triggers@[i].member_id@, system.id@));
            }
            if system.auto_switch_on_trigger {
                system.id.change_fronting_member(Some(tm.id), db);
            }
            let new_content = rewrite_message_content(content, &tm);
            Some(
                SubstitutionPlan {
                    channel: channel.clone(),
                    original_ts: event.ts.clone(),
                    member_id: tm.id,
                    display_name: tm.display_name,
                    icon_url: tm.profile_picture_url,
                    content: new_content,
                    user_token: system.slack_oauth_token,
                },
            )
        },
        None => {
            match system.currently_fronting_member_id {
                Some(member_id) => {
                    proof {
                        assert(old(db).has_member_in_system(member_id@, system.id@));
                        let w = choose|w: int|
                            0 <= w < db.members@.len() && (#[trigger] db.members@[w]).id@
                                == member_id@ && db.members@[w].system_id@ == system.id@;
                        assert(db.has_member(member_id@));
                    }
                    let member = match Member::fetch_by_id(member_id, db) {
                        Some(m) => m,
                        None => {
                            proof {
                                assert(false);
                            }
                            return None;
                        },
                    };
                    let tm = TriggeredMember::from_member(&member);
                    let new_content = rewrite_message_content(content, &tm);
                    Some(
                        SubstitutionPlan {
                            channel: channel.clone(),
                            original_ts: event.ts.clone(),
                            member_id,
                            display_name: tm.display_name,
                            icon_url: tm.profile_picture_url,
                            content: new_content,
                            user_token: system.slack_oauth_token,
                        },
                    )
                },
                None => None,
            }
        },
    }
}

/// With no matching trigger and no fronting member, the pipeline does not
/// run: no plan is produced and the store keeps every table as it was.
pub proof fn lemma_no_selection_no_run(db: Db, e: MessageEvent)
    requires
        db.wf(),
        e.content->Some_0.text matches Some(t) ==> ((e.sender matches Some(s)
            && db.has_system_owned_by(s@)) ==> !matcher_selects(
            db,
            db.spec_system_by_owner(e.sender->Some_0@).id@,
            t@,
        )),
        (e.sender matches Some(s) && db.has_system_owned_by(s@)) ==> db.spec_system_by_owner(
            e.sender->Some_0@,
        ).currently_fronting_member_id is None,
    ensures
        !pipeline_runs(db, e),
{
}

/// Stripping the empty pattern changes nothing.
pub proof fn lemma_empty_pattern_keeps_text(text: Seq<char>)
    ensures
        spec_strip(text, Seq::<char>::empty(), Type::Prefix) == text,
{
}

/// The fronting fallback reposts the message verbatim: the plan's text is
/// the original text, character for character, and the store is untouched.
pub proof fn lemma_fronting_keeps_content(
    pre: Db,
    post: Db,
    sys: System,
    c: MessageContent,
    p: SubstitutionPlan,
)
    requires
        fronting_outcome(pre, post, sys, c, p),
        c.text is Some,
    ensures
        p.content.text matches Some(t2) && t2@ == c.text->Some_0@,
        post == pre,
        sys.currently_fronting_member_id matches Some(m) && p.member_id == m,
{
    lemma_empty_pattern_keeps_text(c.text->Some_0@);
}

/// What the pipeline reads of a platform push event.
#[derive(Debug)]
pub enum PushEvent {
    /// The platform verifying the endpoint: the challenge is echoed back.
    UrlVerification { challenge: String },
    /// A message was deleted on the platform side.
    MessageDeleted { deleted_ts: String },
    /// A new message, or an edit of one.
    Message { event: MessageEvent },
    /// Any other push event; ignored.
    Other,
}

/// What a push event asks of the caller.
#[derive(Debug)]
pub enum PushOutcome {
    /// Answer the endpoint verification with this challenge.
    Challenge { challenge: String },
    /// The audit row for the deleted message was purged (`rows` says
    /// whether one existed); nothing to do.
    LogDeleted { rows: usize },
    /// Perform this substitution.
    Substitute { plan: SubstitutionPlan },
    /// Nothing to do.
    NoAction,
}

/// Routes one push event: an endpoint verification is echoed, a platform
/// deletion purges the matching audit row (idempotently), and a message
/// event runs the substitution pipeline.
pub fn process_push_event(db: &mut Db, event: PushEvent) -> (r: PushOutcome)
    requires
        old(db).wf(),
    ensures
        final(db).wf(),
        match event {
            PushEvent::UrlVerification { challenge } => r matches PushOutcome::Challenge {
                challenge: c,
            } && c@ == challenge@ && *final(db) == *old(db),
            PushEvent::MessageDeleted { deleted_ts } => {
                &&& r matches PushOutcome::LogDeleted { rows } && crate::message::deletion_post(
                    *old(db),
                    *final(db),
                    deleted_ts@,
                    rows as int,
                )
            },
            PushEvent::Message { event: e } => {
                &&& (r matches PushOutcome::Substitute { plan } <==> pipeline_runs(*old(db), e))
                &&& !pipeline_runs(*old(db), e) ==> (r matches PushOutcome::NoAction && *final(db)
                    == *old(db))
                &&& (r matches PushOutcome::Substitute { plan } ==> substitution_outcome(
                    *old(db),
                    *final(db),
                    e,
                    plan,
                ))
            },
            PushEvent::Other => r matches PushOutcome::NoAction && *final(db) == *old(db),
        },
{
    match event {
        PushEvent::UrlVerification { challenge } => PushOutcome::Challenge { challenge },
        PushEvent::MessageDeleted { deleted_ts } => {
            let rows = MessageLog::delete_by_message_id(deleted_ts.as_str(), db);
            PushOutcome::LogDeleted { rows }
        },
        PushEvent::Message { event } => {
            match handle_message(db, event) {
                Some(plan) => PushOutcome::Substitute { plan },
                None => PushOutcome::NoAction,
            }
        },
        PushEvent::Other => PushOutcome::NoAction,
    }
}

} // verus!
