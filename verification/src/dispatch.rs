//! Outgoing messages: what is sent for an announcement, and where.

use vstd::prelude::*;
use vstd::string::*;
use vstd::utf8::*;
use crate::librus::handlers::notices::{NoticeText, SchoolNotice};
use crate::mention::{
    content_mentions, lemma_content_unchanged, lemma_content_valid, resolves, rewrite_content,
    rewritten_content, target_texts, GroupRef, MentionTarget, TargetText,
};
use crate::text::{
    contains_bytes, lemma_decode_concat, lowercase_text, occurs_in, to_lowercase, truncate_chars,
    truncated,
};

verus! {

/// The guild that the messages go to.
pub const GUILD: u64 = 930512190220435516;

/// The channel for changes to the timetable.
pub const SCHEDULE_CHANNEL: u64 = 930552545179500636;

/// The channel for all other announcements.
pub const GENERAL_CHANNEL: u64 = 1283505729592103025;

/// The most characters of an announcement that an ordinary message shows.
pub const DESCRIPTION_LIMIT: usize = 2048;

/// What an announcement is about, which decides where it goes.
#[derive(Clone, Copy, Debug, PartialEq, Eq, Structural)]
pub enum Category {
    Ordinary,
    ScheduleChange,
}

/// The framed part of a message.
#[derive(Clone, Debug, PartialEq, Eq)]
pub struct Embed {
    pub title: String,
    pub description: String,
    pub footer: String,
}

/// A message ready to be sent.
#[derive(Clone, Debug, PartialEq, Eq)]
pub struct OutgoingMessage {
    pub channel: u64,
    pub guild: u64,
    pub content: String,
    pub embed: Embed,
}

/// A message as plain values.
pub struct MessageText {
    pub channel: u64,
    pub guild: u64,
    pub content: Seq<char>,
    pub title: Seq<char>,
    pub description: Seq<char>,
    pub footer: Seq<char>,
}

impl View for OutgoingMessage {
    type V = MessageText;

    open spec fn view(&self) -> MessageText {
        MessageText {
            channel: self.channel,
            guild: self.guild,
            content: self.content@,
            title: self.embed.title@,
            description: self.embed.description@,
            footer: self.embed.footer@,
        }
    }
}

/// The views of a list of messages.
pub open spec fn message_texts(messages: Seq<OutgoingMessage>) -> Seq<MessageText> {
    messages.map_values(|m: OutgoingMessage| m@)
}

/// The words in a title that mark a change to the timetable.
pub open spec fn schedule_marker() -> Seq<char> {
    "zmiany w"@
}

/// The text that opens an ordinary message.
pub open spec fn ordinary_banner() -> Seq<char> {
    ":bangbang: **Nowe Ogłoszenie**"@
}

/// The text that opens a message on a change to the timetable.
pub open spec fn schedule_banner() -> Seq<char> {
    ":bangbang: **ZMIANY W PLANIE**\n\n"@
}

/// The category of an announcement with the given title: a change to the
/// timetable where the lower-case title holds the marker.
pub open spec fn category_of(title: Seq<char>) -> Category {
    if occurs_in(encode_utf8(lowercase_text(title)), encode_utf8(schedule_marker())) {
        Category::ScheduleChange
    } else {
        Category::Ordinary
    }
}

/// Decides the category of an announcement by its title.
pub fn categorize(title: &str) -> (out: Category)
    ensures
        out == category_of(title@),
{
    let lowered = to_lowercase(title);
    if contains_bytes(lowered.as_str().as_bytes(), "zmiany w".as_bytes()) {
        Category::ScheduleChange
    } else {
        Category::Ordinary
    }
}

/// The message for an ordinary announcement.
pub open spec fn ordinary_text(notice: NoticeText) -> MessageText {
    MessageText {
        channel: GENERAL_CHANNEL,
        guild: GUILD,
        content: ordinary_banner(),
        title: notice.title,
        description: truncated(notice.content, DESCRIPTION_LIMIT as int),
        footer: notice.created_at,
    }
}

/// The message for a change to the timetable, given the targets that can be
/// mentioned.
pub open spec fn schedule_change_text(notice: NoticeText, targets: Seq<TargetText>) -> MessageText {
    MessageText {
        channel: SCHEDULE_CHANNEL,
        guild: GUILD,
        content: decode_utf8(
            encode_utf8(schedule_banner()) + content_mentions(
                encode_utf8(notice.content),
                targets,
            ),
        ),
        title: notice.title,
        description: decode_utf8(rewritten_content(encode_utf8(notice.content), targets)),
        footer: notice.created_at,
    }
}

/// Builds the message for an ordinary announcement: the banner, and the
/// content cut down to the limit.
pub fn ordinary_message(notice: &SchoolNotice) -> (out: OutgoingMessage)
    ensures
        out@ == ordinary_text(notice@),
{
    OutgoingMessage {
        channel: GENERAL_CHANNEL,
        guild: GUILD,
        content: ":bangbang: **Nowe Ogłoszenie**".to_owned(),
        embed: Embed {
            title: notice.title.clone(),
            description: truncate_chars(notice.content.as_str(), DESCRIPTION_LIMIT),
            footer: notice.created_at.clone(),
        },
    }
}

/// Builds the message for a change to the timetable: the banner followed by
/// every mention made, and the content with its group references replaced.
pub fn schedule_change_message(notice: &SchoolNotice, targets: &Vec<MentionTarget>) -> (out:
    OutgoingMessage)
    ensures
        out@ == schedule_change_text(notice@, target_texts(targets@)),
{
    let mut mentions = ":bangbang: **ZMIANY W PLANIE**\n\n".to_owned();
    let description = rewrite_content(notice.content.as_str(), targets, &mut mentions);
    proof {
        encode_utf8_decode_utf8(mentions@);
        encode_utf8_decode_utf8(description@);
    }
    OutgoingMessage {
        channel: SCHEDULE_CHANNEL,
        guild: GUILD,
        content: mentions,
        embed: Embed {
            title: notice.title.clone(),
            description,
            footer: notice.created_at.clone(),
        },
    }
}

/// Where no target answers to any reference, as where there is no target,
/// the message on a change to the timetable shows the content as it is, under
/// the banner alone.
pub proof fn lemma_plain_schedule_message(notice: NoticeText, targets: Seq<TargetText>)
    requires
        forall|r: GroupRef| !resolves(targets, r),
    ensures
        schedule_change_text(notice, targets).description == notice.content,
        schedule_change_text(notice, targets).content == schedule_banner(),
{
    lemma_content_unchanged(encode_utf8(notice.content), targets);
    encode_utf8_decode_utf8(notice.content);
    encode_utf8_decode_utf8(schedule_banner());
    assert(encode_utf8(schedule_banner()) + Seq::<u8>::empty() =~= encode_utf8(schedule_banner()));
}

/// The message on a change to the timetable, read as bytes: its text is the
/// banner followed by the mentions, so it opens with the banner, and its
/// description is the rewritten content.
pub proof fn lemma_schedule_message_bytes(notice: NoticeText, targets: Seq<TargetText>)
    ensures
        schedule_change_text(notice, targets).content == schedule_banner() + decode_utf8(
            content_mentions(encode_utf8(notice.content), targets),
        ),
        schedule_banner().is_prefix_of(schedule_change_text(notice, targets).content),
        encode_utf8(schedule_change_text(notice, targets).content) == encode_utf8(
            schedule_banner(),
        ) + content_mentions(encode_utf8(notice.content), targets),
        encode_utf8(schedule_change_text(notice, targets).description) == rewritten_content(
            encode_utf8(notice.content),
            targets,
        ),
{
    let bytes = encode_utf8(notice.content);
    let banner = encode_utf8(schedule_banner());
    let said = content_mentions(bytes, targets);
    encode_utf8_valid_utf8(notice.content);
    encode_utf8_valid_utf8(schedule_banner());
    lemma_content_valid(bytes, targets);
    lemma_decode_concat(banner, said);
    encode_utf8_decode_utf8(schedule_banner());
    decode_utf8_encode_utf8(banner + said);
    decode_utf8_encode_utf8(rewritten_content(bytes, targets));
}

} // verus!
