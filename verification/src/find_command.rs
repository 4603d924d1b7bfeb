//! The rule matcher and the dispatcher.
//!
//! The matcher selects the first rule of the configuration whose constraints
//! all match a URL. The dispatcher follows redirect templates, rewriting and
//! reparsing the URL after each hop, until a rule with a command is reached,
//! no rule matches, or the hop limit is hit.

use vstd::prelude::*;

use crate::config::{Config, Rule, RuleView};
use crate::format::format_to_string;
use crate::format::format_spec;
use crate::urls::{parse_of, parse_outcome, ParseOutcome, ParseOutcomeView, Url, UrlView};
use crate::Error;

verus! {

/// Whether an optional rule constraint accepts an optional URL component:
/// an absent constraint accepts anything, a present one demands exactly the
/// same present value.
pub open spec fn matches_param(url_data: Option<Seq<char>>, param: Option<Seq<char>>) -> bool {
    match param {
        None => true,
        Some(p) => url_data == Some(p),
    }
}

/// Whether `rule` matches `url`: each of the scheme, host and path
/// constraints is absent or equals the URL's component. Query and fragment
/// constraints are not consulted.
pub open spec fn rule_matches(url: UrlView, rule: RuleView) -> bool {
    &&& matches_param(Some(url.scheme), rule.scheme)
    &&& matches_param(url.host, rule.host)
    &&& matches_param(Some(url.path), rule.path)
}

/// The first rule at or after index `i` that matches `url`, if any.
pub open spec fn first_match_from(url: UrlView, rules: Seq<RuleView>, i: int) -> Option<RuleView>
    decreases rules.len() - i,
{
    if i < 0 || i >= rules.len() {
        None
    } else if rule_matches(url, rules[i]) {
        Some(rules[i])
    } else {
        first_match_from(url, rules, i + 1)
    }
}

/// The first rule of `rules` that matches `url`, if any.
pub open spec fn first_match(url: UrlView, rules: Seq<RuleView>) -> Option<RuleView> {
    first_match_from(url, rules, 0)
}

/// Whether an optional rule constraint accepts the corresponding part of
/// the URL: a constraint that is absent accepts anything, a present one
/// demands exactly the same present value.
pub fn url_matches_param(url_data: &Option<&str>, param: &Option<String>) -> (r: bool)
    ensures
        r == matches_param(url_data.deep_view(), param.deep_view()),
{
    match param {
        None => true,
        Some(p) => match url_data {
            Some(u) => {
                let su = String::from_str(*u);
                *p == su
            },
            None => false,
        },
    }
}

/// Whether `rule` matches `url` on scheme, host and path.
fn url_match_rule(url: &Url, rule: &Rule) -> (r: bool)
    ensures
        r == rule_matches(url@, rule@),
{
    let host: Option<&str> = match &url.host {
        Some(h) => Some(h.as_str()),
        None => None,
    };
    let scheme_ok = url_matches_param(&Some(url.scheme.as_str()), &rule.scheme);
    let host_ok = url_matches_param(&host, &rule.host);
    let path_ok = url_matches_param(&Some(url.path.as_str()), &rule.path);
    scheme_ok && host_ok && path_ok
}

/// Find the first rule of `config` that matches `url`.
pub fn find_matching_rule<'a>(url: &Url, config: &'a Config) -> (r: Option<&'a Rule>)
    ensures
        match r {
            Some(rule) => first_match(url@, config@) == Some(rule@),
            None => first_match(url@, config@) is None,
        },
{
    let mut i: usize = 0;
    while i < config.rules.len()
        invariant
            i <= config.rules.len(),
            first_match(url@, config@) == first_match_from(url@, config@, i as int),
        decreases config.rules.len() - i,
    {
        if url_match_rule(url, &config.rules[i]) {
            return Some(&config.rules[i]);
        }
        i = i + 1;
    }
    None
}

proof fn lemma_first_match_from_is_first(url: UrlView, rules: Seq<RuleView>, i: int)
    requires
        0 <= i <= rules.len(),
    ensures
        first_match_from(url, rules, i) is None ==> forall|k: int|
            i <= k < rules.len() ==> !rule_matches(url, rules[k]),
        first_match_from(url, rules, i) matches Some(rule) ==> exists|k: int|
            i <= k < rules.len() && rules[k] == rule && rule_matches(url, rule) && (forall|j: int|
                i <= j < k ==> !rule_matches(url, rules[j])),
    decreases rules.len() - i,
{
    if i < rules.len() && !rule_matches(url, rules[i]) {
        lemma_first_match_from_is_first(url, rules, i + 1);
        if first_match_from(url, rules, i + 1) is Some {
            let rule = first_match_from(url, rules, i + 1)->Some_0;
            let k = choose|k: int|
                i + 1 <= k < rules.len() && rules[k] == rule && rule_matches(url, rule) && (forall|
                    j: int,
                |
                    i + 1 <= j < k ==> !rule_matches(url, rules[j]));
            assert(forall|j: int| i <= j < k ==> !rule_matches(url, rules[j]));
            assert(i <= k < rules.len() && rules[k] == rule && rule_matches(url, rule) && (forall|
                j: int,
            |
                i <= j < k ==> !rule_matches(url, rules[j])));
        }
    }
}

/// Matching is deterministic and first-match-only: the matcher's result is
/// a function of the URL and the rule order alone; whatever rule it yields
/// stands in the list, matches the URL, and every rule before it conflicts
/// with the URL in at least one constraint.
pub proof fn lemma_first_match_is_first(url: UrlView, rules: Seq<RuleView>)
    ensures
        first_match(url, rules) is None ==> forall|i: int|
            0 <= i < rules.len() ==> !rule_matches(url, rules[i]),
        first_match(url, rules) matches Some(rule) ==> exists|i: int|
            0 <= i < rules.len() && rules[i] == rule && rule_matches(url, rule) && (forall|j: int|
                0 <= j < i ==> !rule_matches(url, rules[j])),
{
    lemma_first_match_from_is_first(url, rules, 0);
}

/// A rule with all constraint fields absent matches every URL.
pub proof fn lemma_wildcard_rule_matches(url: UrlView, rule: RuleView)
    requires
        rule.scheme is None,
        rule.host is None,
        rule.path is None,
    ensures
        rule_matches(url, rule),
{
}

/// Constraints match exactly or not at all: a present constraint that
/// differs from the URL's component in any way defeats the rule.
pub proof fn lemma_match_is_exact(url: UrlView, rule: RuleView)
    ensures
        rule.scheme matches Some(s) && url.scheme != s ==> !rule_matches(url, rule),
        rule.host matches Some(h) && url.host != Some(h) ==> !rule_matches(url, rule),
        rule.path matches Some(p) && url.path != p ==> !rule_matches(url, rule),
{
}

/// The most redirect hops the dispatcher follows before it gives up with
/// [`Error::TooManyRedirects`].
pub const MAX_REDIRECTS: usize = 32;

/// What dispatching a URL against a rule list resolves to.
pub enum Outcome {
    /// A rule with a command was reached: the final URL after all
    /// redirects, and that rule's command template.
    Resolved(UrlView, Seq<char>),
    /// No rule matched, or the matched rule has neither command nor
    /// redirect.
    NoRuleFound,
    /// A redirect rendered to a string that does not parse as a URL.
    InvalidRedirect,
    /// A redirect template holds a malformed variable reference.
    BadTemplate,
    /// The hop budget ran out while a matched rule still redirected.
    TooManyRedirects,
}

/// Dispatch `url` against `rules` with `fuel` redirect hops left.
///
/// While the first matching rule carries a redirect template, the template
/// is rendered against the current URL, the rendering is reparsed, and
/// dispatching continues from the new URL with one hop less.
pub open spec fn dispatch_spec(url: UrlView, rules: Seq<RuleView>, fuel: nat) -> Outcome
    decreases fuel,
{
    let matched = first_match(url, rules);
    let redirect = match matched {
        Some(rule) => rule.redirect,
        None => None,
    };
    match redirect {
        Some(template) => if fuel == 0 {
            Outcome::TooManyRedirects
        } else {
            match format_spec(url, template) {
                Some(fields) => match parse_of(fields.flatten()) {
                    ParseOutcomeView::Parsed(new_url) => dispatch_spec(
                        new_url,
                        rules,
                        (fuel - 1) as nat,
                    ),
                    _ => Outcome::InvalidRedirect,
                },
                None => Outcome::BadTemplate,
            }
        },
        None => match matched {
            Some(rule) => match rule.command {
                Some(command) => Outcome::Resolved(url, command),
                None => Outcome::NoRuleFound,
            },
            None => Outcome::NoRuleFound,
        },
    }
}

/// One redirect hop makes progress: while the hop budget lasts, if the
/// first matching rule redirects and the rendered redirect parses back into
/// a URL, dispatching the current URL equals dispatching the new URL with
/// one hop less. Together with `lemma_dispatch_resolves`, an acyclic chain
/// of redirects that reaches a command within the budget resolves after
/// exactly its number of hops.
pub proof fn lemma_dispatch_step(
    url: UrlView,
    rules: Seq<RuleView>,
    rule: RuleView,
    new_url: UrlView,
    fuel: nat,
)
    requires
        fuel > 0,
        first_match(url, rules) == Some(rule),
        rule.redirect is Some,
    ensures
        (format_spec(url, rule.redirect->Some_0) matches Some(fields) && parse_of(
            fields.flatten(),
        ) == ParseOutcomeView::Parsed(new_url)) ==> dispatch_spec(url, rules, fuel)
            == dispatch_spec(new_url, rules, (fuel - 1) as nat),
{
}

/// A matched rule that carries a command and no redirect resolves at once,
/// whatever hop budget is left: the final URL is the current one and the
/// command is that rule's template.
pub proof fn lemma_dispatch_resolves(url: UrlView, rules: Seq<RuleView>, rule: RuleView, fuel: nat)
    requires
        first_match(url, rules) == Some(rule),
        rule.redirect is None,
        rule.command is Some,
    ensures
        dispatch_spec(url, rules, fuel) == Outcome::Resolved(url, rule.command->Some_0),
{
}

/// A chain of redirects that never reaches a command does not resolve: once
/// the hop budget is spent while the first matching rule still redirects,
/// dispatching ends in `TooManyRedirects`.
pub proof fn lemma_dispatch_exhausted(url: UrlView, rules: Seq<RuleView>, rule: RuleView)
    requires
        first_match(url, rules) == Some(rule),
        rule.redirect is Some,
    ensures
        dispatch_spec(url, rules, 0) == Outcome::TooManyRedirects,
{
}

/// One redirect hop of a chain: the first rule matching `from` carries a
/// redirect template, the template renders, and the rendering parses back
/// into the URL `to`.
pub open spec fn redirects_to(from: UrlView, to: UrlView, rules: Seq<RuleView>) -> bool {
    let m = first_match(from, rules);
    &&& m is Some
    &&& m->Some_0.redirect is Some
    &&& format_spec(from, m->Some_0.redirect->Some_0) is Some
    &&& parse_of(format_spec(from, m->Some_0.redirect->Some_0)->Some_0.flatten())
        == ParseOutcomeView::Parsed(to)
}

/// An acyclic chain of redirects of finite length resolves after exactly
/// its number of hops: if each URL of `chain` redirects to the next, the
/// last one is matched by a rule with a command and no redirect, and the
/// hop budget covers the chain, then dispatching the first URL resolves to
/// the last URL and that rule's command.
pub proof fn lemma_dispatch_chain(chain: Seq<UrlView>, rules: Seq<RuleView>, fuel: nat)
    requires
        chain.len() >= 1,
        fuel >= chain.len() - 1,
        forall|i: int|
            0 <= i < chain.len() - 1 ==> #[trigger] redirects_to(chain[i], chain[i + 1], rules),
        first_match(chain.last(), rules) matches Some(rule) && rule.redirect is None
            && rule.command is Some,
    ensures
        dispatch_spec(chain[0], rules, fuel) == Outcome::Resolved(
            chain.last(),
            first_match(chain.last(), rules)->Some_0.command->Some_0,
        ),
    decreases chain.len(),
{
    if chain.len() == 1 {
        lemma_dispatch_resolves(chain[0], rules, first_match(chain[0], rules)->Some_0, fuel);
    } else {
        assert(redirects_to(chain[0], chain[1], rules));
        lemma_dispatch_step(chain[0], rules, first_match(chain[0], rules)->Some_0, chain[1], fuel);
        let sub = chain.subrange(1, chain.len() as int);
        assert forall|i: int|
            0 <= i < sub.len() - 1 implies #[trigger] redirects_to(sub[i], sub[i + 1], rules) by {
            assert(sub[i] == chain[i + 1]);
            assert(sub[i + 1] == chain[i + 2]);
            assert(redirects_to(chain[i + 1], chain[i + 2], rules));
        }
        assert(sub.last() == chain.last());
        lemma_dispatch_chain(sub, rules, (fuel - 1) as nat);
        assert(sub[0] == chain[1]);
    }
}

/// Find a command for `url` from the rules of `config`.
///
/// Redirects are followed, at most [`MAX_REDIRECTS`] hops. On success the
/// result pairs the final URL with the matched rule's command template;
/// each error names exactly the way dispatching failed.
#[verifier::loop_isolation(false)]
pub fn find_command(url: Url, config: &Config) -> (r: Result<(Url, String), Error>)
    ensures
        match r {
            Ok(resolved) => dispatch_spec(url@, config@, MAX_REDIRECTS as nat)
                == Outcome::Resolved(resolved.0@, resolved.1@),
            Err(e) => match e {
                Error::NoRuleFound => dispatch_spec(url@, config@, MAX_REDIRECTS as nat)
                    == Outcome::NoRuleFound,
                Error::InvalidRedirect => dispatch_spec(url@, config@, MAX_REDIRECTS as nat)
                    == Outcome::InvalidRedirect,
                Error::BadTemplate => dispatch_spec(url@, config@, MAX_REDIRECTS as nat)
                    == Outcome::BadTemplate,
                Error::TooManyRedirects => dispatch_spec(url@, config@, MAX_REDIRECTS as nat)
                    == Outcome::TooManyRedirects,
                _ => false,
            },
        },
{
    let ghost orig = url@;
    let mut current = url;
    let mut fuel: usize = MAX_REDIRECTS;
    loop
        invariant
            dispatch_spec(orig, config@, MAX_REDIRECTS as nat) == dispatch_spec(
                current@,
                config@,
                fuel as nat,
            ),
        decreases fuel,
    {
        match find_matching_rule(&current, config) {
            Some(rule) => match &rule.redirect {
                Some(template) => {
                    if fuel == 0 {
                        return Err(Error::TooManyRedirects);
                    }
                    match format_to_string(&current, template.as_str()) {
                        Ok(rendered) => match parse_outcome(rendered.as_str()) {
                            ParseOutcome::Parsed(new_url) => {
                                current = new_url;
                                fuel = fuel - 1;
                            },
                            _ => {
                                return Err(Error::InvalidRedirect);
                            },
                        },
                        Err(e) => {
                            return Err(e);
                        },
                    }
                },
                None => match &rule.command {
                    Some(command) => {
                        return Ok((current, command.clone()));
                    },
                    None => {
                        return Err(Error::NoRuleFound);
                    },
                },
            },
            None => {
                return Err(Error::NoRuleFound);
            },
        }
    }
}

} // verus!
