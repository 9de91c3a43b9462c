//! The configuration of the controller: which namespaces it watches, reads from
//! and writes to.
use crate::text;
use crate::text::Text;
use vstd::prelude::*;
use vstd::string::*;

verus! {

/// A set of namespaces, each listed once.
#[derive(Debug, PartialEq, Eq)]
pub struct Namespaces {
    names: Vec<String>,
}

impl View for Namespaces {
    type V = Set<Text>;

    closed spec fn view(&self) -> Set<Text> {
        text::views(self.names@).to_set()
    }
}

impl Clone for Namespaces {
    fn clone(&self) -> (res: Self)
        ensures
            res@ == self@,
    {
        proof {
            use_type_invariant(self);
        }
        let names = self.names.clone();
        assert(text::views(names@) =~= text::views(self.names@));
        Namespaces { names }
    }
}

impl Namespaces {
    #[verifier::type_invariant]
    spec fn listed_once(self) -> bool {
        text::views(self.names@).no_duplicates()
    }

    /// The set of the listed namespaces.
    pub fn from_list(list: Vec<String>) -> (res: Self)
        ensures
            res@ == text::views(list@).to_set(),
    {
        let mut names: Vec<String> = Vec::new();
        let ghost all = text::views(list@);
        let mut i: usize = 0;
        while i < list.len()
            invariant
                i <= list@.len(),
                all == text::views(list@),
                text::views(names@).no_duplicates(),
                forall|x: Text| text::views(names@).contains(x) <==> all.take(i as int).contains(x),
            decreases list@.len() - i,
        {
            let ghost before = text::views(names@);
            let known: bool = lists(&names, list[i].as_str());
            proof {
                assert(all.take(i + 1) =~= all.take(i as int).push(all[i as int]));
                text::lemma_push_contains(all.take(i as int), all[i as int]);
                text::lemma_push_contains(before, all[i as int]);
            }
            if !known {
                names.push(list[i].clone());
                assert(text::views(names@) =~= before.push(all[i as int]));
            }
            assert forall|x: Text|
                text::views(names@).contains(x) <==> all.take(i + 1).contains(x) by {
                assert(all.take(i as int).push(all[i as int]).contains(x) <==> all.take(
                    i as int,
                ).contains(x) || x == all[i as int]);
                assert(before.push(all[i as int]).contains(x) <==> before.contains(x) || x
                    == all[i as int]);
            }
            i = i + 1;
        }
        assert(all.take(i as int) =~= all);
        let res = Namespaces { names };
        assert(res@ =~= all.to_set());
        res
    }

    /// Whether the set holds `namespace`.
    pub fn contains(&self, namespace: &str) -> (res: bool)
        ensures
            res == self@.contains(namespace@),
    {
        lists(&self.names, namespace)
    }

    /// Whether the set is empty.
    pub fn is_empty(&self) -> (res: bool)
        ensures
            res == (self@ == Set::<Text>::empty()),
    {
        if self.names.len() == 0 {
            assert(self@ =~= Set::<Text>::empty());
            true
        } else {
            assert(text::views(self.names@).contains(text::views(self.names@)[0]));
            assert(self@.contains(text::views(self.names@)[0]));
            false
        }
    }

    /// The only namespace of the set, where it holds exactly one.
    pub fn only(&self) -> (res: Option<&String>)
        ensures
            (match res {
                Some(n) => self@ == set![n@],
                None => forall|n: Text| self@ != set![n],
            }),
    {
        proof {
            use_type_invariant(self);
        }
        let ghost s = text::views(self.names@);
        if self.names.len() == 1 {
            let n: &String = &self.names[0];
            assert(s[0] == n@);
            assert forall|x: Text| self@.contains(x) <==> set![n@].contains(x) by {
                if x == n@ {
                    assert(s.contains(s[0]));
                }
            }
            assert(self@ =~= set![n@]);
            Some(n)
        } else {
            assert forall|n: Text| self@ != set![n] by {
                assert(set![n].contains(n));
                if s.len() > 1 && self@ == set![n] {
                    assert(s.contains(s[0]) && s.contains(s[1]));
                    assert(self@.contains(s[0]) && self@.contains(s[1]));
                    assert(s[0] == n && s[1] == n);
                    assert(false);
                }
            }
            None
        }
    }
}

/// Whether `namespace` is in the list.
fn lists(names: &Vec<String>, namespace: &str) -> (res: bool)
    ensures
        res == text::views(names@).contains(namespace@),
{
    let ghost s = text::views(names@);
    let mut i: usize = 0;
    while i < names.len()
        invariant
            i <= names@.len(),
            s == text::views(names@),
            forall|j: int| 0 <= j < i ==> s[j] != namespace@,
        decreases names@.len() - i,
    {
        if text::same_text(names[i].as_str(), namespace) {
            assert(s[i as int] == namespace@);
            return true;
        }
        i = i + 1;
    }
    false
}

/// The value of an environment variable, without the white space around it,
/// where anything is left of it.
pub open spec fn env_value(raw: Option<Text>) -> Option<Text> {
    match raw {
        Some(v) => if text::trimmed(v).len() == 0 {
            None
        } else {
            Some(text::trimmed(v))
        },
        None => None,
    }
}

/// Takes the white space off the value of an environment variable. A value
/// without anything else counts as not set.
pub fn env_var(raw: Option<String>) -> (res: Option<String>)
    ensures
        text::view_opt(res) == env_value(text::view_opt(raw)),
{
    match raw {
        Some(v) => {
            let trimmed = text::trim_text(v.as_str());
            if trimmed.as_str().unicode_len() == 0 {
                None
            } else {
                Some(trimmed)
            }
        },
        None => None,
    }
}

/// A restriction to `names`: there is none where the list is empty, or holds the
/// wildcard or the empty name.
pub open spec fn normalized(names: Set<Text>) -> Option<Set<Text>> {
    if names == Set::<Text>::empty() || names.contains("*"@) || names.contains(""@) {
        None
    } else {
        Some(names)
    }
}

/// The restriction that a comma separated list states.
pub open spec fn restriction(raw: Option<Text>) -> Option<Set<Text>> {
    match env_value(raw) {
        Some(v) => normalized(text::split(v, ',').to_set()),
        None => None,
    }
}

fn normalize(names: Namespaces) -> (res: Option<Namespaces>)
    ensures
        text::view_opt(res) == normalized(names@),
{
    if names.is_empty() || names.contains("*") || names.contains("") {
        None
    } else {
        Some(names)
    }
}

fn restrict(raw: Option<String>) -> (res: Option<Namespaces>)
    ensures
        text::view_opt(res) == restriction(text::view_opt(raw)),
{
    match env_var(raw) {
        Some(v) => normalize(Namespaces::from_list(text::split_text(v.as_str(), ','))),
        None => None,
    }
}

/// Which objects of a kind the API is asked for.
#[derive(Debug, PartialEq, Eq)]
pub enum ApiScope {
    /// Those of all namespaces.
    All,
    /// Those of one namespace.
    Namespaced(String),
}

/// The model of [`ApiScope`].
pub enum ApiScopeView {
    All,
    Namespaced(Text),
}

impl View for ApiScope {
    type V = ApiScopeView;

    open spec fn view(&self) -> ApiScopeView {
        match self {
            ApiScope::All => ApiScopeView::All,
            ApiScope::Namespaced(ns) => ApiScopeView::Namespaced(ns@),
        }
    }
}

impl Clone for ApiScope {
    fn clone(&self) -> (res: Self)
        ensures
            res@ == self@,
    {
        match self {
            ApiScope::All => ApiScope::All,
            ApiScope::Namespaced(ns) => ApiScope::Namespaced(ns.clone()),
        }
    }
}

/// The scope under a restriction: a single namespace is asked for alone.
pub open spec fn scope(restriction: Option<Set<Text>>) -> ApiScopeView {
    match restriction {
        Some(names) => if exists|n: Text| names == set![n] {
            ApiScopeView::Namespaced(choose|n: Text| names == set![n])
        } else {
            ApiScopeView::All
        },
        None => ApiScopeView::All,
    }
}

/// Get an optimized scope.
pub fn api_scope(namespaces: &Option<Namespaces>) -> (res: ApiScope)
    ensures
        res@ == scope(text::view_opt(*namespaces)),
{
    match namespaces {
        Some(names) => match names.only() {
            Some(ns) => {
                proof {
                    let n = choose|n: Text| names@ == set![n];
                    assert(set![ns@].contains(ns@));
                    assert(set![n].contains(ns@));
                }
                ApiScope::Namespaced(ns.clone())
            },
            None => ApiScope::All,
        },
        None => ApiScope::All,
    }
}

/// Whether objects of `namespace` are looked at under a restriction.
pub open spec fn admits(restriction: Option<Set<Text>>, namespace: Text) -> bool {
    match restriction {
        Some(names) => names == Set::<Text>::empty() || names.contains(namespace) || names.contains(
            "*"@,
        ),
        None => true,
    }
}

/// Whether `namespace` is listed, where there is a restriction.
pub open spec fn lists_target(restriction: Option<Set<Text>>, namespace: Text) -> bool {
    match restriction {
        Some(names) => names.contains(namespace),
        None => true,
    }
}

fn admitted(namespaces: &Option<Namespaces>, namespace: &str) -> (res: bool)
    ensures
        res == admits(text::view_opt(*namespaces), namespace@),
{
    match namespaces {
        Some(names) => names.is_empty() || names.contains(namespace) || names.contains("*"),
        None => true,
    }
}

/// The configuration of the controller.
#[derive(Debug, PartialEq, Eq)]
pub struct Configuration {
    /// Which `ObjectSync` objects the API is asked for.
    pub resource_sync: ApiScope,
    /// The namespaces to watch for `ObjectSync` objects, all where it is not set.
    pub watch_namespaces: Option<Namespaces>,
    /// The namespaces to read source objects from, all where it is not set.
    pub source_namespaces: Option<Namespaces>,
    /// The namespaces in which copies are watched, and new ones looked after, all
    /// where it is not set. Copies are written wherever an `ObjectSync` wants them.
    pub target_namespaces: Option<Namespaces>,
}

/// The model of [`Configuration`].
#[verifier::ext_equal]
pub struct ConfigurationView {
    pub resource_sync: ApiScopeView,
    pub watch_namespaces: Option<Set<Text>>,
    pub source_namespaces: Option<Set<Text>>,
    pub target_namespaces: Option<Set<Text>>,
}

impl View for Configuration {
    type V = ConfigurationView;

    open spec fn view(&self) -> ConfigurationView {
        ConfigurationView {
            resource_sync: self.resource_sync@,
            watch_namespaces: text::view_opt(self.watch_namespaces),
            source_namespaces: text::view_opt(self.source_namespaces),
            target_namespaces: text::view_opt(self.target_namespaces),
        }
    }
}

impl Clone for Configuration {
    fn clone(&self) -> (res: Self)
        ensures
            res@ == self@,
    {
        let res = Configuration {
            resource_sync: self.resource_sync.clone(),
            watch_namespaces: self.watch_namespaces.clone(),
            source_namespaces: self.source_namespaces.clone(),
            target_namespaces: self.target_namespaces.clone(),
        };
        assert(res@ =~~= self@);
        res
    }
}

impl ConfigurationView {
    /// The configuration that the values of the environment variables
    /// `WATCH_NAMESPACES`, `SOURCE_NAMESPACES` and `TARGET_NAMESPACES` state.
    pub open spec fn of(watch: Option<Text>, source: Option<Text>, target: Option<Text>) -> Self {
        ConfigurationView {
            resource_sync: scope(restriction(watch)),
            watch_namespaces: restriction(watch),
            source_namespaces: restriction(source),
            target_namespaces: restriction(target),
        }
    }

    /// Whether `ObjectSync` objects of `namespace` are looked at.
    pub open spec fn watches(self, namespace: Text) -> bool {
        admits(self.watch_namespaces, namespace)
    }

    /// Whether source objects of `namespace` are looked at.
    pub open spec fn reads_from(self, namespace: Text) -> bool {
        admits(self.source_namespaces, namespace)
    }

    /// Whether changes in `namespace` are looked at.
    pub open spec fn targets(self, namespace: Text) -> bool {
        lists_target(self.target_namespaces, namespace)
    }
}

impl Configuration {
    /// The configuration that the values of the environment variables
    /// `WATCH_NAMESPACES`, `SOURCE_NAMESPACES` and `TARGET_NAMESPACES` state.
    pub fn new(watch: Option<String>, source: Option<String>, target: Option<String>) -> (res: Self)
        ensures
            res@ == ConfigurationView::of(
                text::view_opt(watch),
                text::view_opt(source),
                text::view_opt(target),
            ),
    {
        let watch_namespaces = restrict(watch);
        let source_namespaces = restrict(source);
        let target_namespaces = restrict(target);
        Configuration {
            resource_sync: api_scope(&watch_namespaces),
            watch_namespaces,
            source_namespaces,
            target_namespaces,
        }
    }

    /// Whether `ObjectSync` objects of `namespace` are looked at.
    pub fn watches(&self, namespace: &str) -> (res: bool)
        ensures
            res == self@.watches(namespace@),
    {
        admitted(&self.watch_namespaces, namespace)
    }

    /// Whether source objects of `namespace` are looked at.
    pub fn reads_from(&self, namespace: &str) -> (res: bool)
        ensures
            res == self@.reads_from(namespace@),
    {
        admitted(&self.source_namespaces, namespace)
    }

    /// Whether changes in `namespace` are looked at.
    pub fn targets(&self, namespace: &str) -> (res: bool)
        ensures
            res == self@.targets(namespace@),
    {
        match &self.target_namespaces {
            Some(names) => names.contains(namespace),
            None => true,
        }
    }
}

/// The wildcard and the empty name in a list lift the restriction, also where
/// other names stand beside them.
pub proof fn law_wildcard_lifts_restriction(raw: Option<Text>)
    requires
        restriction(raw) is Some,
    ensures
        !restriction(raw)->0.contains("*"@),
        !restriction(raw)->0.contains(""@),
        forall|ns: Text| admits(restriction(raw), ns) <==> restriction(raw)->0.contains(ns),
{
}

/// A restriction to a single name asks the API for that namespace alone, and
/// nothing that such a scope leaves out is ever looked at.
pub proof fn law_single_namespace_scope(
    watch: Option<Text>,
    source: Option<Text>,
    target: Option<Text>,
    namespace: Text,
)
    requires
        ConfigurationView::of(watch, source, target).watches(namespace),
    ensures
        match ConfigurationView::of(watch, source, target).resource_sync {
            ApiScopeView::All => true,
            ApiScopeView::Namespaced(ns) => ns == namespace,
        },
{
    if let Some(names) = restriction(watch) {
        law_wildcard_lifts_restriction(watch);
        if exists|n: Text| names == set![n] {
            let n = choose|n: Text| names == set![n];
            assert(set![n].contains(namespace));
        }
    }
}

/// The address that the metrics are served at, as host and port, given the values
/// of the environment variables `METRICS_LISTEN_ADDR` and `METRICS_LISTEN_PORT`.
pub fn metrics_address(host: Option<String>, port: Option<String>) -> (res: String)
    ensures
        res@ == text_or(env_value(text::view_opt(host)), "0.0.0.0"@) + ":"@ + text_or(
            env_value(text::view_opt(port)),
            "9000"@,
        ),
{
    let mut res = match env_var(host) {
        Some(v) => v,
        None => "0.0.0.0".to_string(),
    };
    res.append(":");
    match env_var(port) {
        Some(v) => res.append(v.as_str()),
        None => res.append("9000"),
    }
    res
}

/// The text, or else the other one.
pub open spec fn text_or(o: Option<Text>, other: Text) -> Text {
    match o {
        Some(v) => v,
        None => other,
    }
}

/// Whether `v` is the list of these names, separated by commas, with white space
/// around it or without.
pub open spec fn is_list_of(v: Text, names: Seq<Text>) -> bool {
    &&& names.len() > 0
    &&& forall|i: int| 0 <= i < names.len() ==> !(#[trigger] names[i]).contains(',')
    &&& text::is_tight(text::joined(names, ','))
    &&& exists|before: Text, after: Text|
        #![trigger before + text::joined(names, ',') + after]
        text::is_blank(before) && text::is_blank(after) && v == before + text::joined(names, ',')
            + after
}

proof fn lemma_list(v: Text, names: Seq<Text>)
    requires
        is_list_of(v, names),
    ensures
        text::trimmed(v) == text::joined(names, ','),
        text::split(text::joined(names, ','), ',') == names,
{
    let (before, after) = choose|before: Text, after: Text|
        #![trigger before + text::joined(names, ',') + after]
        text::is_blank(before) && text::is_blank(after) && v == before + text::joined(names, ',')
            + after;
    text::law_trimming_takes_off_the_ends(before, text::joined(names, ','), after);
    text::law_joined_pieces_are_split(names, ',');
}

/// A list of namespaces, however long, restricts what it is given for to exactly
/// the namespaces in it, whatever the other two lists say.
pub proof fn law_listed_namespaces_are_the_only_ones(
    v: Text,
    names: Seq<Text>,
    namespace: Text,
    first: Option<Text>,
    second: Option<Text>,
)
    requires
        is_list_of(v, names),
        !names.contains(""@),
        !names.contains("*"@),
    ensures
        ConfigurationView::of(Some(v), first, second).watches(namespace) <==> names.contains(
            namespace,
        ),
        ConfigurationView::of(first, Some(v), second).reads_from(namespace) <==> names.contains(
            namespace,
        ),
        ConfigurationView::of(first, second, Some(v)).targets(namespace) <==> names.contains(
            namespace,
        ),
        ConfigurationView::of(Some(v), first, second).watch_namespaces == Some(names.to_set()),
        ConfigurationView::of(first, Some(v), second).source_namespaces == Some(names.to_set()),
        ConfigurationView::of(first, second, Some(v)).target_namespaces == Some(names.to_set()),
{
    lemma_list(v, names);
    lemma_list_is_not_blank(names);
    assert(names.contains(names[0]));
    assert(names.to_set().contains(names[0]));
}

proof fn lemma_list_is_not_blank(names: Seq<Text>)
    requires
        names.len() > 0,
        !names.contains(""@),
    ensures
        text::joined(names, ',').len() > 0,
    decreases names.len(),
{
    reveal_strlit("");
    if names.len() == 1 {
        assert(names.contains(names[0]));
        if names[0].len() == 0 {
            assert(names[0] =~= ""@);
        }
    }
}

/// Without a list, or with one in which the wildcard or the empty name stands,
/// nothing is restricted.
pub proof fn law_nothing_is_restricted(
    raw: Option<Text>,
    names: Seq<Text>,
    namespace: Text,
    first: Option<Text>,
    second: Option<Text>,
)
    requires
        raw matches Some(v) ==> text::is_blank(v) || (is_list_of(v, names) && (names.contains(""@)
            || names.contains("*"@))),
    ensures
        ConfigurationView::of(raw, first, second).watches(namespace),
        ConfigurationView::of(first, raw, second).reads_from(namespace),
        ConfigurationView::of(first, second, raw).targets(namespace),
        ConfigurationView::of(raw, first, second).resource_sync is All,
        ConfigurationView::of(raw, first, second).watch_namespaces is None,
        ConfigurationView::of(first, raw, second).source_namespaces is None,
        ConfigurationView::of(first, second, raw).target_namespaces is None,
{
    if let Some(v) = raw {
        if text::is_blank(v) {
            let none = Seq::<char>::empty();
            assert(v =~= v + none + none);
            text::law_trimming_takes_off_the_ends(v, none, none);
        } else {
            lemma_list(v, names);
        }
    }
}

/// The API is asked for one namespace alone exactly where the list holds no other
/// name.
pub proof fn law_single_name_is_the_scope(
    v: Text,
    names: Seq<Text>,
    first: Option<Text>,
    second: Option<Text>,
)
    requires
        is_list_of(v, names),
        !names.contains(""@),
        !names.contains("*"@),
    ensures
        match ConfigurationView::of(Some(v), first, second).resource_sync {
            ApiScopeView::Namespaced(n) => forall|i: int|
                0 <= i < names.len() ==> #[trigger] names[i] == n,
            ApiScopeView::All => exists|i: int|
                0 <= i < names.len() && #[trigger] names[i] != names[0],
        },
{
    lemma_list(v, names);
    lemma_list_is_not_blank(names);
    let set = names.to_set();
    assert(names.contains(names[0]));
    assert(set.contains(names[0]));
    if exists|n: Text| set == set![n] {
        let n = choose|n: Text| set == set![n];
        assert forall|i: int| 0 <= i < names.len() implies #[trigger] names[i] == n by {
            assert(names.contains(names[i]));
            assert(set![n].contains(names[i]));
        }
    } else {
        if forall|i: int| 0 <= i < names.len() ==> #[trigger] names[i] == names[0] {
            assert(set =~= set![names[0]]);
        }
    }
}

/// The value of a variable is what stands between the white space around it, and
/// it counts as not set where nothing does.
pub proof fn law_variable_is_trimmed(before: Text, v: Text, after: Text)
    requires
        text::is_blank(before),
        text::is_blank(after),
        text::is_tight(v),
    ensures
        env_value(Some(before + v + after)) == if v.len() > 0 {
            Some(v)
        } else {
            None
        },
        env_value(None) is None,
{
    text::law_trimming_takes_off_the_ends(before, v, after);
}

/// Host and port of the metrics have defaults, and each is taken as it is where it
/// is set.
pub proof fn law_default_only_where_nothing_is_set(v: Text, other: Text)
    ensures
        text_or(Some(v), other) == v,
        text_or(None, other) == other,
{
}

/// The calls do what the laws on them say: the configuration is made of the three
/// variables, and asked about a namespace it answers by them.
pub proof fn law_configuration_answers_by_the_variables(
    watch: Option<String>,
    source: Option<String>,
    target: Option<String>,
    made: Configuration,
    c: &Configuration,
    namespace: &str,
    watches: bool,
    reads: bool,
    targets: bool,
)
    requires
        call_ensures(Configuration::new, (watch, source, target), made),
        call_ensures(Configuration::watches, (c, namespace), watches),
        call_ensures(Configuration::reads_from, (c, namespace), reads),
        call_ensures(Configuration::targets, (c, namespace), targets),
    ensures
        made@ == ConfigurationView::of(
            text::view_opt(watch),
            text::view_opt(source),
            text::view_opt(target),
        ),
        watches == c@.watches(namespace@),
        reads == c@.reads_from(namespace@),
        targets == c@.targets(namespace@),
{
}

/// A list of names holds the names in it, and no other, and has one name exactly
/// where all in it are the same. The scope and the address are made of what is set.
pub proof fn law_calls_on_names(
    list: Vec<String>,
    made: Namespaces,
    names: &Namespaces,
    name: &str,
    held: bool,
    empty: bool,
    restricted: &Option<Namespaces>,
    scoped: ApiScope,
    raw: Option<String>,
    value: Option<String>,
    host: Option<String>,
    port: Option<String>,
    address: String,
)
    requires
        call_ensures(Namespaces::from_list, (list,), made),
        call_ensures(Namespaces::contains, (names, name), held),
        call_ensures(Namespaces::is_empty, (names,), empty),
        call_ensures(api_scope, (restricted,), scoped),
        call_ensures(env_var, (raw,), value),
        call_ensures(metrics_address, (host, port), address),
    ensures
        made@.contains(name@) <==> exists|i: int|
            0 <= i < list@.len() && (#[trigger] list@[i])@ == name@,
        held <==> names@.contains(name@),
        empty <==> forall|n: Text| !#[trigger] names@.contains(n),
        scoped@ == scope(text::view_opt(*restricted)),
        text::view_opt(value) == env_value(text::view_opt(raw)),
        host is None && port is None ==> address@ == "0.0.0.0"@ + ":"@ + "9000"@,
        env_value(text::view_opt(host)) matches Some(h) ==> (env_value(
            text::view_opt(port),
        ) matches Some(p) ==> address@ == h + ":"@ + p),
{
    let all = text::views(list@);
    if all.to_set().contains(name@) {
        let i = choose|i: int| 0 <= i < all.len() && all[i] == name@;
        assert(list@[i]@ == name@);
    }
    if exists|i: int| 0 <= i < list@.len() && (#[trigger] list@[i])@ == name@ {
        let i = choose|i: int| 0 <= i < list@.len() && (#[trigger] list@[i])@ == name@;
        assert(all[i] == name@);
        assert(all.contains(name@));
    }
    if forall|n: Text| !#[trigger] names@.contains(n) {
        assert(names@ =~= Set::empty());
    }
}

} // verus!
