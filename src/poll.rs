//! Polls and their answer options.
use crate::user::User;
use vstd::prelude::*;

verus! {

/// The kind of a poll.
#[derive(Copy, Clone, Debug, PartialEq, Eq, Hash, Structural)]
pub enum PollType {
    Quiz,
    Regular,
}

/// A special part of a message text: a mention, a link, a code span and so
/// on.
#[derive(Clone, Debug, PartialEq, Eq, Hash)]
pub struct MessageEntity {
    /// What the part is.
    pub kind: MessageEntityKind,
    /// Offset of the part in UTF-16 code units.
    pub offset: usize,
    /// Length of the part in UTF-16 code units.
    pub length: usize,
}

/// What a message entity marks.
#[derive(Clone, Debug, PartialEq, Eq, Hash)]
pub enum MessageEntityKind {
    Mention,
    Hashtag,
    Cashtag,
    BotCommand,
    Url,
    Email,
    PhoneNumber,
    Bold,
    Italic,
    Underline,
    Strikethrough,
    Code,
    Pre { language: Option<String> },
    TextLink { url: String },
    TextMention { user: User },
}

/// A poll.
#[derive(Clone, Debug, PartialEq, Eq, Hash)]
pub struct Poll {
    /// Unique poll identifier.
    pub id: String,
    /// Poll question, 1-255 characters.
    pub question: String,
    /// The answer options.
    pub options: Vec<PollOption>,
    /// `true` if the poll is closed.
    pub is_closed: bool,
    /// Total number of users that voted in the poll.
    pub total_voter_count: i32,
    /// `true` if the poll is anonymous.
    pub is_anonymous: bool,
    /// Poll type: regular or quiz.
    pub poll_type: PollType,
    /// `true` if the poll allows multiple answers.
    pub allows_multiple_answers: bool,
    /// 0-based index of the correct option, for quizzes that are closed, or
    /// that the bot sent (not forwarded), or sent to the private chat with
    /// the bot.
    pub correct_option_id: Option<i32>,
    /// Text shown when a user chooses a wrong answer or taps the lamp icon
    /// in a quiz, 0-200 characters.
    pub explanation: Option<String>,
    /// Special entities (usernames, URLs, bot commands, ...) in the
    /// explanation.
    pub explanation_entities: Option<Vec<MessageEntity>>,
    /// Time in seconds that the poll stays active after its creation.
    pub open_period: Option<i32>,
    /// Unix time at which the poll closes by itself.
    pub close_date: Option<i32>,
}

impl Poll {
    #[allow(clippy::too_many_arguments)]
    pub fn new(
        id: String,
        question: String,
        options: Vec<PollOption>,
        is_closed: bool,
        total_voter_count: i32,
        is_anonymous: bool,
        poll_type: PollType,
        allows_multiple_answers: bool,
    ) -> (r: Self)
        ensures
            r.id == id,
            r.question == question,
            r.options == options,
            r.is_closed == is_closed,
            r.total_voter_count == total_voter_count,
            r.is_anonymous == is_anonymous,
            r.poll_type == poll_type,
            r.allows_multiple_answers == allows_multiple_answers,
            r.correct_option_id.is_none(),
            r.explanation.is_none(),
            r.explanation_entities.is_none(),
            r.open_period.is_none(),
            r.close_date.is_none(),
    {
        Self {
            id,
            question,
            options,
            is_closed,
            total_voter_count,
            is_anonymous,
            poll_type,
            allows_multiple_answers,
            correct_option_id: None,
            explanation: None,
            explanation_entities: None,
            open_period: None,
            close_date: None,
        }
    }

    pub fn id(self, val: String) -> (r: Self)
        ensures
            r == (Self { id: val, ..self }),
    {
        Self { id: val, ..self }
    }

    pub fn question(self, val: String) -> (r: Self)
        ensures
            r == (Self { question: val, ..self }),
    {
        Self { question: val, ..self }
    }

    pub fn options(self, val: Vec<PollOption>) -> (r: Self)
        ensures
            r == (Self { options: val, ..self }),
    {
        Self { options: val, ..self }
    }

    #[allow(clippy::wrong_self_convention)]
    pub fn is_closed(self, val: bool) -> (r: Self)
        ensures
            r == (Self { is_closed: val, ..self }),
    {
        Self { is_closed: val, ..self }
    }

    pub fn total_voter_count(self, val: i32) -> (r: Self)
        ensures
            r == (Self { total_voter_count: val, ..self }),
    {
        Self { total_voter_count: val, ..self }
    }

    #[allow(clippy::wrong_self_convention)]
    pub fn is_anonymous(self, val: bool) -> (r: Self)
        ensures
            r == (Self { is_anonymous: val, ..self }),
    {
        Self { is_anonymous: val, ..self }
    }

    pub fn poll_type(self, val: PollType) -> (r: Self)
        ensures
            r == (Self { poll_type: val, ..self }),
    {
        Self { poll_type: val, ..self }
    }

    pub fn allows_multiple_answers(self, val: bool) -> (r: Self)
        ensures
            r == (Self { allows_multiple_answers: val, ..self }),
    {
        Self { allows_multiple_answers: val, ..self }
    }

    pub fn correct_option_id(self, val: i32) -> (r: Self)
        ensures
            r == (Self { correct_option_id: Some(val), ..self }),
    {
        Self { correct_option_id: Some(val), ..self }
    }

    pub fn explanation(self, val: String) -> (r: Self)
        ensures
            r == (Self { explanation: Some(val), ..self }),
    {
        Self { explanation: Some(val), ..self }
    }

    pub fn explanation_entities(self, val: Vec<MessageEntity>) -> (r: Self)
        ensures
            r == (Self { explanation_entities: Some(val), ..self }),
    {
        Self { explanation_entities: Some(val), ..self }
    }

    pub fn open_period(self, val: i32) -> (r: Self)
        ensures
            r == (Self { open_period: Some(val), ..self }),
    {
        Self { open_period: Some(val), ..self }
    }

    pub fn close_date(self, val: i32) -> (r: Self)
        ensures
            r == (Self { close_date: Some(val), ..self }),
    {
        Self { close_date: Some(val), ..self }
    }
}

/// One answer option of a poll.
#[derive(Clone, Debug, PartialEq, Eq, Hash)]
pub struct PollOption {
    /// Option text, 1-100 characters.
    pub text: String,
    /// Number of users that voted for this option.
    pub voter_count: i32,
}

impl PollOption {
    pub fn new(text: String, voter_count: i32) -> (r: Self)
        ensures
            r.text == text,
            r.voter_count == voter_count,
    {
        Self { text, voter_count }
    }

    pub fn text(self, val: String) -> (r: Self)
        ensures
            r == (Self { text: val, ..self }),
    {
        Self { text: val, ..self }
    }

    pub fn voter_count(self, val: i32) -> (r: Self)
        ensures
            r == (Self { voter_count: val, ..self }),
    {
        Self { voter_count: val, ..self }
    }
}

} // verus!
