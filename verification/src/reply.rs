use aho_corasick::AhoCorasick;
use vstd::prelude::*;

use crate::config::Config;
use crate::message::{MsgV, RawMessage};
use crate::msg_cache::MessageCache;

verus! {

#[verifier::external_type_specification]
#[verifier::external_body]
pub struct ExAhoCorasick(AhoCorasick);

/// Whether two characters are equal without respect to ASCII letter case.
pub open spec fn char_eq_ci(a: char, b: char) -> bool {
    let av = a as u32;
    let bv = b as u32;
    ||| av == bv
    ||| (65 <= av <= 90 && bv == av + 32)
    ||| (65 <= bv <= 90 && av == bv + 32)
}

/// Whether `pat` occurs in `hay` at offset `off`, ASCII-case-insensitively.
pub open spec fn matches_at_ci(hay: Seq<char>, pat: Seq<char>, off: int) -> bool {
    &&& 0 <= off
    &&& off + pat.len() <= hay.len()
    &&& forall|j: int| 0 <= j < pat.len() ==> char_eq_ci(hay[off + j], #[trigger] pat[j])
}

/// Whether any of the patterns occurs anywhere in the haystack,
/// ASCII-case-insensitively.
pub open spec fn contains_ci(pats: Seq<Seq<char>>, hay: Seq<char>) -> bool {
    exists|pi: int, off: int|
        0 <= pi < pats.len() && #[trigger] matches_at_ci(hay, pats[pi], off)
}

/// The patterns a name matcher was built from.
pub uninterp spec fn matcher_patterns(m: &AhoCorasick) -> Seq<Seq<char>>;

/// Whether an automaton can be built over these patterns: construction stays
/// within the matcher's fixed size limits, a condition of the patterns alone.
pub uninterp spec fn matcher_build_ok(pats: Seq<Seq<char>>) -> bool;

/// Relies on `AhoCorasickBuilder::build` with `ascii_case_insensitive(true)`:
/// the automaton is built over exactly the given patterns, in order; whether
/// construction succeeds depends on the patterns alone, and a failure returns
/// an error, never panics.
#[verifier::external_body]
fn build_matcher(names: &Vec<String>) -> (r: Option<AhoCorasick>)
    ensures
        r is Some <==> matcher_build_ok(names.deep_view()),
        (match r {
            Some(m) => matcher_patterns(&m) == names.deep_view(),
            None => true,
        }),
{
    match AhoCorasick::builder().ascii_case_insensitive(true).build(names) {
        Ok(m) => Some(m),
        Err(_) => None,
    }
}

/// Relies on `AhoCorasick::is_match`: true if and only if some pattern of the
/// automaton occurs in the haystack at any position — without respect to case
/// for ASCII letters, since the automaton is built case-insensitively. The
/// byte-level search of valid UTF-8 always aligns with character boundaries,
/// so the occurrence is one over characters.
#[verifier::external_body]
fn matcher_is_match(m: &AhoCorasick, hay: &str) -> (r: bool)
    ensures
        r == contains_ci(matcher_patterns(m), hay@),
{
    m.is_match(hay)
}

/// The trigger-name matcher: an automaton over a fixed list of names, matched
/// ASCII-case-insensitively. The automaton is held privately, so every value
/// of this type was built by [`NameMatcher::build`] and its contracts hold of
/// all of them.
pub struct NameMatcher {
    inner: AhoCorasick,
}

impl NameMatcher {
    /// The names this matcher was built over.
    pub closed spec fn patterns(&self) -> Seq<Seq<char>> {
        matcher_patterns(&self.inner)
    }

    /// Build a matcher over the given names; succeeds exactly when the
    /// automaton's construction does.
    pub fn build(names: &Vec<String>) -> (r: Option<NameMatcher>)
        ensures
            r is Some <==> matcher_build_ok(names.deep_view()),
            (match r {
                Some(m) => m.patterns() == names.deep_view(),
                None => true,
            }),
    {
        match build_matcher(names) {
            Some(inner) => Some(NameMatcher { inner }),
            None => None,
        }
    }

    /// Whether any of the matcher's names occurs anywhere in the haystack,
    /// ASCII-case-insensitively.
    pub fn is_match(&self, hay: &str) -> (r: bool)
        ensures
            r == contains_ci(self.patterns(), hay@),
    {
        matcher_is_match(&self.inner, hay)
    }
}

/// An absent text, for matching purposes, is the empty string.
pub open spec fn text_or_empty(t: Option<Seq<char>>) -> Seq<char> {
    match t {
        Some(s) => s,
        None => Seq::<char>::empty(),
    }
}

/// When a message triggers a reply: it is a common user message, and the
/// conversation is private, or it replies to a message of the bot's, or its
/// text or caption contains a configured trigger name. The whole contract of
/// [`BotState::should_reply`].
pub open spec fn should_reply_spec(m: MsgV, me_id: u64, pats: Seq<Seq<char>>) -> bool {
    &&& m.common
    &&& {
        ||| m.chat_private
        ||| m.reply_to_author == Some(me_id)
        ||| contains_ci(pats, text_or_empty(m.text))
        ||| contains_ci(pats, text_or_empty(m.caption))
    }
}

/// The process-wide state of the bot: its own identity, the per-conversation
/// history store, and the matcher over the configured trigger names plus the
/// bot's username.
pub struct BotState {
    pub me_id: u64,
    pub cache: MessageCache,
    pub matcher: NameMatcher,
}

impl BotState {
    /// The trigger names the reply policy matches against.
    pub open spec fn trigger_patterns(&self) -> Seq<Seq<char>> {
        self.matcher.patterns()
    }

    /// Build the state from the configuration and the bot's own identity:
    /// an empty history store of the configured capacity, and a matcher over
    /// the configured names with the bot's username appended. Succeeds
    /// exactly when the matcher's construction does.
    pub fn new(config: &Config, me_id: u64, me_username: &str) -> (r: Option<BotState>)
        ensures
            r is Some <==> matcher_build_ok(
                config.telegram.names.deep_view().push(me_username@),
            ),
            (match r {
                Some(s) => {
                    &&& s.me_id == me_id
                    &&& s.cache.wf()
                    &&& s.cache.capacity() == config.telegram.cache_size
                    &&& forall|k: i64| s.cache.contents(k) == Seq::<MsgV>::empty()
                    &&& s.trigger_patterns() == config.telegram.names.deep_view().push(
                        me_username@,
                    )
                },
                None => true,
            }),
    {
        let ghost names_view = config.telegram.names.deep_view();
        let mut names = config.telegram.names.clone();
        proof {
            assert(names.deep_view() =~= names_view);
        }
        names.push(String::from_str(me_username));
        proof {
            assert(names.deep_view() =~= names_view.push(me_username@));
        }
        match NameMatcher::build(&names) {
            Some(matcher) => Some(
                BotState { me_id, cache: MessageCache::new(config.telegram.cache_size), matcher },
            ),
            None => None,
        }
    }

    /// Decide whether a message should be answered at all.
    pub fn should_reply(&self, msg: &RawMessage) -> (r: bool)
        ensures
            r == should_reply_spec(msg@, self.me_id, self.trigger_patterns()),
    {
        proof {
            reveal_strlit("");
            assert(""@ =~= Seq::<char>::empty());
        }
        if !msg.common {
            return false;
        }
        if msg.chat_private {
            return true;
        }
        let replies_to_me = match msg.reply_to_author {
            Some(rid) => rid == self.me_id,
            None => false,
        };
        if replies_to_me {
            return true;
        }
        let text: &str = match &msg.text {
            Some(t) => t.as_str(),
            None => "",
        };
        if self.matcher.is_match(text) {
            return true;
        }
        let caption: &str = match &msg.caption {
            Some(c) => c.as_str(),
            None => "",
        };
        self.matcher.is_match(caption)
    }
}

/// In a private chat, every common user message triggers a reply.
pub proof fn lemma_private_chat_replies(m: MsgV, me_id: u64, pats: Seq<Seq<char>>)
    requires
        m.common,
        m.chat_private,
    ensures
        should_reply_spec(m, me_id, pats),
{
}

/// In a group chat, a message that does not reply to the bot and whose text
/// and caption contain no trigger name is left unanswered.
pub proof fn lemma_group_without_trigger_is_silent(m: MsgV, me_id: u64, pats: Seq<Seq<char>>)
    requires
        !m.chat_private,
        m.reply_to_author != Some(me_id),
        !contains_ci(pats, text_or_empty(m.text)),
        !contains_ci(pats, text_or_empty(m.caption)),
    ensures
        !should_reply_spec(m, me_id, pats),
{
}

} // verus!
