//! Service identification on an open connection.
//!
//! The matcher sends nothing itself. It says which probe goes out next, is
//! told what came back, and ends with the reply to report.

use crate::fingerprint::{Fingerprint, Match, Probe};
use crate::scanner::socket::{
    unknown_name, ScannerReply, ScannerReplyView, TransportLayerProtocol,
};
use crate::utils::address::SocketTarget;
use crate::utils::pattern::{decode_lossy, find_group, regex_group, regex_valid, utf8_lossy};
use vstd::prelude::*;

verus! {

/// The reply for an endpoint that accepted a TCP connection and has not
/// been identified.
pub open spec fn open_reply(target: SocketTarget) -> ScannerReplyView {
    ScannerReplyView {
        activity: true,
        name: unknown_name(),
        ip_addr: Some(target.ip),
        port: Some(target.port),
        version: None,
        transport_layer_protocol: Some(TransportLayerProtocol::TCP),
    }
}

/// What the search for one rule's pattern in a banner came to.
#[derive(Debug)]
pub enum Search {
    /// The pattern is not a regular expression.
    Malformed,
    /// The pattern does not occur in the banner.
    Missed,
    /// The pattern occurs in the banner; inside is what its group `version`
    /// captured, if it captured anything.
    Found(Option<String>),
}

/// A `Search` as plain values.
pub ghost enum SearchView {
    Malformed,
    Missed,
    Found(Option<Seq<char>>),
}

impl View for Search {
    type V = SearchView;

    open spec fn view(&self) -> SearchView {
        match self {
            Search::Malformed => SearchView::Malformed,
            Search::Missed => SearchView::Missed,
            Search::Found(None) => SearchView::Found(None),
            Search::Found(Some(version)) => SearchView::Found(Some(version@)),
        }
    }
}

/// The name of the capture group that holds the version of a service.
pub const VERSION_GROUP: &'static str = "version";

/// What the search for `pattern` in `banner` comes to. The version is what
/// the group `version` of the pattern captured.
pub open spec fn searched(pattern: Seq<char>, banner: Seq<char>) -> SearchView {
    if !regex_valid(pattern) {
        SearchView::Malformed
    } else {
        match regex_group(pattern, banner, VERSION_GROUP@) {
            Some(version) => SearchView::Found(version),
            None => SearchView::Missed,
        }
    }
}

/// `reply` once the search for the pattern of `rule` has come to `found`:
/// a pattern that was found gives the rule's name and the captured
/// version; anything else leaves the reply as it was.
pub open spec fn recorded(reply: ScannerReplyView, rule: Match, found: SearchView)
    -> ScannerReplyView {
    match found {
        SearchView::Found(Some(version)) => ScannerReplyView {
            name: rule.name@,
            version: Some(version),
            ..reply
        },
        SearchView::Found(None) => ScannerReplyView { name: rule.name@, ..reply },
        _ => reply,
    }
}

/// Whether `rule` ends the search on `banner`. An empty pattern does, as an
/// unconditional match that names nothing; a pattern that is no regular
/// expression does, because nothing after it can be relied on; and so does
/// a pattern that occurs in the banner.
pub open spec fn settles(rule: Match, banner: Seq<char>) -> bool {
    rule.pattern@.len() == 0 || !(searched(rule.pattern@, banner) is Missed)
}

/// The position of the first rule at or after `from` that settles the
/// search, if there is one.
pub open spec fn first_settling(rules: Seq<Match>, banner: Seq<char>, from: int) -> Option<int>
    decreases rules.len() - from,
{
    if from < 0 || from >= rules.len() {
        None
    } else if settles(rules[from], banner) {
        Some(from)
    } else {
        first_settling(rules, banner, from + 1)
    }
}

/// `reply` after the rules of one probe have read `banner`: what the first
/// rule that settles the search makes of it. A rule with an empty pattern
/// leaves the reply as it was, and so does a banner that no rule settles.
pub open spec fn reply_after_rules(reply: ScannerReplyView, rules: Seq<Match>, banner: Seq<char>)
    -> ScannerReplyView {
    match first_settling(rules, banner, 0) {
        Some(i) => if rules[i].pattern@.len() == 0 {
            reply
        } else {
            recorded(reply, rules[i], searched(rules[i].pattern@, banner))
        },
        None => reply,
    }
}

/// Searches `banner` for `pattern`.
pub fn search(pattern: &str, banner: &str) -> (found: Search)
    ensures
        found@ == searched(pattern@, banner@),
{
    match find_group(pattern, banner, VERSION_GROUP) {
        Err(_) => Search::Malformed,
        Ok(None) => Search::Missed,
        Ok(Some(version)) => Search::Found(version),
    }
}

/// Takes down in `reply` what the search for the pattern of `rule` came
/// to, and tells whether that settles the identification: every outcome
/// does but a pattern that was not found.
pub fn record(reply: &mut ScannerReply, rule: &Match, found: Search) -> (settled: bool)
    ensures
        settled == !(found@ is Missed),
        final(reply)@ == recorded(old(reply)@, *rule, found@),
{
    match found {
        Search::Malformed => true,
        Search::Missed => false,
        Search::Found(version) => {
            reply.set_name(rule.name.clone());
            if let Some(text) = version {
                reply.set_version(text);
            }
            true
        },
    }
}

/// Runs the rules of one probe over `banner`, in order, and stops at the
/// first that settles the search. Returns whether one did.
pub fn apply_rules(reply: &mut ScannerReply, rules: &Vec<Match>, banner: &str) -> (settled: bool)
    ensures
        settled == (first_settling(rules@, banner@, 0) is Some),
        final(reply)@ == reply_after_rules(old(reply)@, rules@, banner@),
{
    let mut i: usize = 0;
    while i < rules.len()
        invariant
            i <= rules.len(),
            reply@ == old(reply)@,
            first_settling(rules@, banner@, 0) == first_settling(rules@, banner@, i as int),
        decreases rules.len() - i,
    {
        let rule = &rules[i];
        if rule.pattern.as_str().is_empty() {
            return true;
        }
        let found = search(rule.pattern.as_str(), banner);
        if record(reply, rule, found) {
            return true;
        }
        i = i + 1;
    }
    false
}

/// The state of one identification: the reply so far, the probes, and how
/// far through them it is.
#[derive(Debug)]
pub struct FingerprintMatcher {
    reply: ScannerReply,
    probes: Vec<Probe>,
    cursor: usize,
    stopped: bool,
}

/// A `FingerprintMatcher` as plain values.
pub ghost struct MatcherView {
    pub reply: ScannerReplyView,
    pub probes: Seq<Probe>,
    pub cursor: nat,
    pub stopped: bool,
}

impl MatcherView {
    /// Where an identification starts: the endpoint is open, and the probes
    /// are those of the definition, if one is loaded.
    pub open spec fn initial(target: SocketTarget, fingerprint: Option<Fingerprint>) -> MatcherView {
        MatcherView {
            reply: open_reply(target),
            probes: match fingerprint {
                Some(definition) => definition.probes@,
                None => Seq::empty(),
            },
            cursor: 0,
            stopped: false,
        }
    }

    /// Nothing more will be sent: the search was settled or abandoned, or
    /// the probes have run out.
    pub open spec fn finished(self) -> bool {
        self.stopped || self.cursor >= self.probes.len()
    }

    /// The payload to send next, unless the identification is finished.
    pub open spec fn next_probe(self) -> Option<Seq<char>> {
        if self.finished() {
            None
        } else {
            Some(self.probes[self.cursor as int].probe_string@)
        }
    }

    /// The state after the endpoint answered the pending probe with
    /// `response`.
    pub open spec fn after_response(self, response: Seq<u8>) -> MatcherView {
        if self.finished() {
            self
        } else {
            let rules = self.probes[self.cursor as int].matches@;
            let banner = utf8_lossy(response);
            MatcherView {
                reply: reply_after_rules(self.reply, rules, banner),
                probes: self.probes,
                cursor: self.cursor + 1,
                stopped: first_settling(rules, banner, 0) is Some,
            }
        }
    }

    /// The state after the connection failed: nothing more is sent, and the
    /// reply stays as it was.
    pub open spec fn after_failure(self) -> MatcherView {
        MatcherView { stopped: true, ..self }
    }
}

impl View for FingerprintMatcher {
    type V = MatcherView;

    closed spec fn view(&self) -> MatcherView {
        MatcherView {
            reply: self.reply@,
            probes: self.probes@,
            cursor: self.cursor as nat,
            stopped: self.stopped,
        }
    }
}

impl FingerprintMatcher {
    /// Starts the identification of `target`, which has just accepted a
    /// connection. Without a definition there is nothing to send.
    pub fn new(target: SocketTarget, fingerprint: Option<Fingerprint>) -> (matcher:
        FingerprintMatcher)
        ensures
            matcher@ == MatcherView::initial(target, fingerprint),
    {
        let mut reply = ScannerReply::new();
        reply.set_activity(true);
        reply.set_transport_layer_protocol(Some(TransportLayerProtocol::TCP));
        reply.set_ip_addr(Some(target.ip));
        reply.set_port(Some(target.port));
        let probes = match fingerprint {
            Some(definition) => definition.probes,
            None => Vec::new(),
        };
        FingerprintMatcher { reply, probes, cursor: 0, stopped: false }
    }

    /// Whether the reply is ready to be reported.
    pub fn is_finished(&self) -> (finished: bool)
        ensures
            finished == self@.finished(),
    {
        self.stopped || self.cursor >= self.probes.len()
    }

    /// The payload to write to the connection now, or `None` when the
    /// identification is finished.
    pub fn next_probe(&self) -> (payload: Option<&String>)
        ensures
            match payload {
                Some(text) => self@.next_probe() == Some(text@),
                None => self@.next_probe() is None,
            },
    {
        if self.is_finished() {
            None
        } else {
            Some(&self.probes[self.cursor].probe_string)
        }
    }

    /// Takes what the endpoint sent back for the pending probe.
    pub fn on_response(&mut self, response: &[u8])
        ensures
            final(self)@ == old(self)@.after_response(response@),
    {
        if !self.stopped && self.cursor < self.probes.len() {
            let banner = decode_lossy(response);
            let settled = apply_rules(
                &mut self.reply,
                &self.probes[self.cursor].matches,
                banner.as_str(),
            );
            self.stopped = settled;
            self.cursor = self.cursor + 1;
        }
    }

    /// Takes note that writing the probe or reading the answer failed.
    pub fn on_failure(&mut self)
        ensures
            final(self)@ == old(self)@.after_failure(),
    {
        self.stopped = true;
    }

    /// The reply as it stands.
    pub fn reply(&self) -> (reply: &ScannerReply)
        ensures
            reply@ == self@.reply,
    {
        &self.reply
    }

    /// Ends the identification and hands over the reply.
    pub fn into_reply(self) -> (reply: ScannerReply)
        ensures
            reply@ == self@.reply,
    {
        self.reply
    }
}

/// `first_settling` finds the first rule that settles the search: the rule
/// at `i` settles it and none between `from` and `i` does.
pub proof fn lemma_first_settling_is_first(
    rules: Seq<Match>,
    banner: Seq<char>,
    from: int,
    i: int,
)
    requires
        0 <= from <= i < rules.len(),
        settles(rules[i], banner),
        forall|j: int| from <= j < i ==> !settles(#[trigger] rules[j], banner),
    ensures
        first_settling(rules, banner, from) == Some(i),
    decreases i - from,
{
    if from < i {
        lemma_first_settling_is_first(rules, banner, from + 1, i);
    }
}

/// The first rule that settles the search decides the reply, whatever rules
/// come after it: two rule lists that agree up to and including that rule
/// give the same reply for the same banner.
pub proof fn lemma_first_match_wins(
    reply: ScannerReplyView,
    rules: Seq<Match>,
    others: Seq<Match>,
    banner: Seq<char>,
    i: int,
)
    requires
        0 <= i < rules.len(),
        i < others.len(),
        forall|j: int| 0 <= j <= i ==> rules[j] == others[j],
        settles(rules[i], banner),
        forall|j: int| 0 <= j < i ==> !settles(#[trigger] rules[j], banner),
    ensures
        first_settling(rules, banner, 0) == Some(i),
        first_settling(others, banner, 0) == Some(i),
        reply_after_rules(reply, rules, banner) == reply_after_rules(reply, others, banner),
{
    lemma_first_settling_is_first(rules, banner, 0, i);
    assert forall|j: int| 0 <= j < i implies !settles(#[trigger] others[j], banner) by {
        assert(rules[j] == others[j]);
    }
    lemma_first_settling_is_first(others, banner, 0, i);
}

/// A rule with an empty pattern, reached before any other rule settles the
/// search, ends the identification: the reply is left as it was, no further
/// probe is sent, and nothing that happens afterwards changes the state.
pub proof fn lemma_empty_pattern_short_circuits(
    state: MatcherView,
    response: Seq<u8>,
    i: int,
    later: Seq<u8>,
)
    requires
        !state.finished(),
        0 <= i < state.probes[state.cursor as int].matches@.len(),
        state.probes[state.cursor as int].matches@[i].pattern@.len() == 0,
        forall|j: int|
            0 <= j < i ==> !settles(
                #[trigger] state.probes[state.cursor as int].matches@[j],
                utf8_lossy(response),
            ),
    ensures
        state.after_response(response).finished(),
        state.after_response(response).next_probe() is None,
        state.after_response(response).reply == state.reply,
        state.after_response(response).after_response(later) == state.after_response(response),
{
    let rules = state.probes[state.cursor as int].matches@;
    lemma_first_settling_is_first(rules, utf8_lossy(response), 0, i);
}

/// Once finished, an identification stays finished, with the same reply.
pub proof fn lemma_finished_is_final(state: MatcherView, response: Seq<u8>)
    requires
        state.finished(),
    ensures
        state.after_response(response) == state,
        state.after_failure().finished(),
        state.after_failure().reply == state.reply,
        state.next_probe() is None,
{
}

/// With no definition loaded, the endpoint is reported at once: open, with
/// no service name and no version.
pub proof fn lemma_no_definition_reports_open(target: SocketTarget)
    ensures
        MatcherView::initial(target, None).finished(),
        MatcherView::initial(target, None).reply == open_reply(target),
{
}

/// A definition whose only probe starts with an empty pattern reports every
/// endpoint as open with no service name and no version, whatever the
/// endpoint sends back.
pub proof fn lemma_empty_pattern_reports_open(
    target: SocketTarget,
    definition: Fingerprint,
    response: Seq<u8>,
)
    requires
        definition.probes@.len() == 1,
        definition.probes@[0].matches@.len() > 0,
        definition.probes@[0].matches@[0].pattern@.len() == 0,
    ensures
        MatcherView::initial(target, Some(definition)).next_probe() == Some(
            definition.probes@[0].probe_string@,
        ),
        MatcherView::initial(target, Some(definition)).after_response(response).finished(),
        MatcherView::initial(target, Some(definition)).after_response(response).reply
            == open_reply(target),
{
    let state = MatcherView::initial(target, Some(definition));
    lemma_empty_pattern_short_circuits(state, response, 0, response);
}

/// A failed connection ends the identification with the reply as it stood.
pub proof fn lemma_failure_keeps_reply(state: MatcherView)
    ensures
        state.after_failure().finished(),
        state.after_failure().next_probe() is None,
        state.after_failure().reply == state.reply,
{
}

} // verus!
