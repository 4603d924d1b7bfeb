//! Rules and the configuration that holds them.
//!
//! A rule pairs optional match constraints (scheme, host, path; query and
//! fragment are declared but not consulted by matching) with at most one
//! action: a command template to run, or a redirect template to rewrite the
//! URL with. A configuration is an ordered list of rules; the first match
//! wins.

use vstd::prelude::*;

verus! {

/// An ordered list of rules. Order is significant: the matcher returns the
/// first rule that matches.
pub struct Config {
    pub rules: Vec<Rule>,
}

impl View for Config {
    type V = Seq<RuleView>;

    open spec fn view(&self) -> Seq<RuleView> {
        self.rules.deep_view()
    }
}

/// One dispatch rule: optional exact-match constraints and an optional
/// action.
///
/// A constraint field that is `None` matches any value of the corresponding
/// URL component. A rule should carry at most one of `command` and
/// `redirect`; one with neither matches structurally but yields nothing.
#[derive(Debug, Clone)]
pub struct Rule {
    pub scheme: Option<String>,
    pub host: Option<String>,
    pub path: Option<String>,
    pub query: Option<String>,
    pub fragment: Option<String>,
    /// Command template to run.
    pub command: Option<String>,
    /// Redirect template: rewrite the URL and match again.
    pub redirect: Option<String>,
}

/// The mathematical value of a [`Rule`].
pub struct RuleView {
    pub scheme: Option<Seq<char>>,
    pub host: Option<Seq<char>>,
    pub path: Option<Seq<char>>,
    pub query: Option<Seq<char>>,
    pub fragment: Option<Seq<char>>,
    pub command: Option<Seq<char>>,
    pub redirect: Option<Seq<char>>,
}

impl View for Rule {
    type V = RuleView;

    open spec fn view(&self) -> RuleView {
        RuleView {
            scheme: self.scheme.deep_view(),
            host: self.host.deep_view(),
            path: self.path.deep_view(),
            query: self.query.deep_view(),
            fragment: self.fragment.deep_view(),
            command: self.command.deep_view(),
            redirect: self.redirect.deep_view(),
        }
    }
}

impl DeepView for Rule {
    type V = RuleView;

    open spec fn deep_view(&self) -> RuleView {
        self.view()
    }
}

impl Default for Rule {
    /// The rule with no constraints and no action: it matches every URL and
    /// yields nothing.
    fn default() -> (r: Self)
        ensures
            r@ == (RuleView {
                scheme: None,
                host: None,
                path: None,
                query: None,
                fragment: None,
                command: None,
                redirect: None,
            }),
    {
        Rule {
            scheme: None,
            host: None,
            path: None,
            query: None,
            fragment: None,
            command: None,
            redirect: None,
        }
    }
}

} // verus!
