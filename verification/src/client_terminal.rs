//! The terminal of a client: what its environment says of it.
use crate::text::{
    lowercase, occurs, occurs_in_lowercase, same_ignoring_case, same_text, split_words, texts,
    words,
};
use vstd::prelude::*;
use vstd::string::*;

verus! {

/// A variable of an environment.
#[derive(Debug, Clone, PartialEq, Eq)]
pub struct EnvironmentVariable {
    /// The name of the variable.
    pub name: String,
    /// The value of the variable.
    pub value: String,
}

/// The environment of a client's process.
#[derive(Debug, Clone, PartialEq, Eq)]
pub struct ClientEnvironment {
    variables: Vec<EnvironmentVariable>,
}

/// The values that a list of variables sets, a later one replacing an earlier one of
/// the same name.
pub open spec fn variable_values(variables: Seq<EnvironmentVariable>) -> Map<Seq<char>, Seq<char>>
    decreases variables.len(),
{
    if variables.len() == 0 {
        Map::empty()
    } else {
        variable_values(variables.drop_last()).insert(
            variables.last().name@,
            variables.last().value@,
        )
    }
}

impl View for ClientEnvironment {
    type V = Map<Seq<char>, Seq<char>>;

    closed spec fn view(&self) -> Map<Seq<char>, Seq<char>> {
        variable_values(self.variables@)
    }
}

impl ClientEnvironment {
    /// An environment without variables.
    pub fn new() -> (environment: Self)
        ensures
            environment@ == Map::<Seq<char>, Seq<char>>::empty(),
    {
        ClientEnvironment { variables: Vec::new() }
    }

    /// Sets a variable.
    pub fn set(&mut self, name: &str, value: &str)
        ensures
            final(self)@ == old(self)@.insert(name@, value@),
    {
        let ghost before = self.variables@;
        self.variables.push(EnvironmentVariable { name: name.to_owned(), value: value.to_owned() });
        assert(self.variables@.drop_last() =~= before);
    }

    /// The value of a variable, where it is set.
    pub fn get(&self, name: &str) -> (value: Option<&String>)
        ensures
            match value {
                Some(value) => self@.dom().contains(name@) && value@ == self@[name@],
                None => !self@.dom().contains(name@),
            },
    {
        let mut count: usize = self.variables.len();
        assert(self.variables@.take(count as int) =~= self.variables@);
        while count > 0
            invariant
                count <= self.variables@.len(),
                self@.dom().contains(name@) == variable_values(
                    self.variables@.take(count as int),
                ).dom().contains(name@),
                self@.dom().contains(name@) ==> self@[name@] == variable_values(
                    self.variables@.take(count as int),
                )[name@],
            decreases count,
        {
            let ghost here = self.variables@.take(count as int);
            assert(here.drop_last() =~= self.variables@.take(count - 1));
            if same_text(self.variables[count - 1].name.as_str(), name) {
                return Some(&self.variables[count - 1].value);
            }
            count = count - 1;
        }
        None
    }
}

/// What a client reports of its terminal.
#[derive(Debug, Clone, PartialEq, Eq)]
pub struct ClientTerminalContext {
    /// The features of the terminal.
    pub terminal_features: Vec<String>,
    /// The terminal shows UTF-8.
    pub utf8: bool,
}

/// What a report of a terminal holds.
#[verifier::ext_equal]
pub struct Terminal {
    pub features: Seq<Seq<char>>,
    pub utf8: bool,
}

impl View for ClientTerminalContext {
    type V = Terminal;

    open spec fn view(&self) -> Terminal {
        Terminal { features: texts(self.terminal_features@), utf8: self.utf8 }
    }
}

impl Default for ClientTerminalContext {
    fn default() -> (terminal: Self)
        ensures
            terminal@ == (Terminal { features: Seq::empty(), utf8: false }),
    {
        let terminal = ClientTerminalContext { terminal_features: Vec::new(), utf8: false };
        terminal
    }
}

/// The variable is set and not empty.
pub open spec fn set_to_text(environment: Map<Seq<char>, Seq<char>>, name: Seq<char>) -> bool {
    environment.dom().contains(name) && environment[name].len() > 0
}

/// The environment is that of a Windows Terminal.
pub open spec fn in_windows_terminal(environment: Option<Map<Seq<char>, Seq<char>>>) -> bool {
    environment is Some && set_to_text(environment->0, "WT_SESSION"@)
}

/// The locale that the environment sets for characters.
pub open spec fn character_locale(environment: Map<Seq<char>, Seq<char>>) -> Option<Seq<char>> {
    if set_to_text(environment, "LC_ALL"@) {
        Some(environment["LC_ALL"@])
    } else if set_to_text(environment, "LC_CTYPE"@) {
        Some(environment["LC_CTYPE"@])
    } else if set_to_text(environment, "LANG"@) {
        Some(environment["LANG"@])
    } else {
        None
    }
}

/// The environment says that the terminal shows UTF-8: it is that of a pane of this
/// server, or its locale names the encoding.
pub open spec fn says_utf8(environment: Option<Map<Seq<char>, Seq<char>>>) -> bool {
    match environment {
        None => false,
        Some(environment) => {
            ||| set_to_text(environment, "RMUX"@)
            ||| character_locale(environment) is Some && {
                let locale = lowercase(character_locale(environment)->0);
                occurs("utf-8"@, locale) || occurs("utf8"@, locale)
            }
        },
    }
}

/// The feature is among those listed, in any case.
pub open spec fn has_feature(features: Seq<Seq<char>>, feature: Seq<char>) -> bool {
    exists|i: int|
        0 <= i < features.len() && lowercase(#[trigger] features[i]) == lowercase(feature)
}

/// The features with one more, where it is not among them.
pub open spec fn with_feature(features: Seq<Seq<char>>, feature: Seq<char>) -> Seq<Seq<char>> {
    if has_feature(features, feature) {
        features
    } else {
        features.push(feature)
    }
}

/// The features with those that every modern terminal has.
pub open spec fn with_base_features(features: Seq<Seq<char>>) -> Seq<Seq<char>> {
    with_feature(
        with_feature(with_feature(with_feature(features, "sync"@), "bpaste"@), "mouse"@),
        "clipboard"@,
    )
}

/// The terminal of a client, given what it reports and what its environment says.
pub open spec fn effective_terminal(
    environment: Option<Map<Seq<char>, Seq<char>>>,
    reported: Terminal,
) -> Terminal {
    if in_windows_terminal(environment) {
        Terminal { features: with_base_features(reported.features), utf8: true }
    } else {
        Terminal { features: reported.features, utf8: reported.utf8 || says_utf8(environment) }
    }
}

/// What an environment holds, where there is one.
pub open spec fn optional_environment(environment: Option<&ClientEnvironment>) -> Option<
    Map<Seq<char>, Seq<char>>,
> {
    match environment {
        Some(environment) => Some(environment@),
        None => None,
    }
}

/// Whether a variable is set and not empty.
fn is_set_to_text(environment: &ClientEnvironment, name: &str) -> (yes: bool)
    ensures
        yes == set_to_text(environment@, name@),
{
    match environment.get(name) {
        Some(value) => value.as_str().unicode_len() > 0,
        None => false,
    }
}

/// Whether the environment is that of a Windows Terminal.
pub fn client_environment_is_windows_terminal(
    client_environment: Option<&ClientEnvironment>,
) -> (yes: bool)
    ensures
        yes == in_windows_terminal(optional_environment(client_environment)),
{
    match client_environment {
        Some(environment) => is_set_to_text(environment, "WT_SESSION"),
        None => false,
    }
}

/// Adds a feature, where it is not listed in any case.
pub fn push_unique_terminal_feature(features: &mut Vec<String>, feature: &str)
    ensures
        texts(final(features)@) == with_feature(texts(old(features)@), feature@),
{
    let ghost before = features@;
    let mut index: usize = 0;
    while index < features.len()
        invariant
            index <= features@.len(),
            features@ == before,
            forall|i: int|
                0 <= i < index ==> lowercase(#[trigger] texts(before)[i]) != lowercase(feature@),
        decreases features@.len() - index,
    {
        assert(texts(before)[index as int] == features@[index as int]@);
        if same_ignoring_case(features[index].as_str(), feature) {
            return;
        }
        index = index + 1;
    }
    features.push(feature.to_owned());
}

/// Adds the features that every modern terminal has.
pub(crate) fn push_base_features(features: &mut Vec<String>)
    ensures
        texts(final(features)@) == with_base_features(texts(old(features)@)),
{
    push_unique_terminal_feature(features, "sync");
    push_unique_terminal_feature(features, "bpaste");
    push_unique_terminal_feature(features, "mouse");
    push_unique_terminal_feature(features, "clipboard");
}

/// Whether a locale names UTF-8.
fn names_utf8(locale: &String) -> (yes: bool)
    ensures
        yes == (occurs("utf-8"@, lowercase(locale@)) || occurs("utf8"@, lowercase(locale@))),
{
    occurs_in_lowercase("utf-8", locale.as_str()) || occurs_in_lowercase("utf8", locale.as_str())
}

/// Whether the environment says that the terminal shows UTF-8.
pub fn client_environment_infers_utf8(client_environment: Option<&ClientEnvironment>) -> (yes: bool)
    ensures
        yes == says_utf8(optional_environment(client_environment)),
{
    let environment: &ClientEnvironment = match client_environment {
        Some(environment) => environment,
        None => {
            return false;
        },
    };
    if is_set_to_text(environment, "RMUX") {
        return true;
    }
    let name: &str = if is_set_to_text(environment, "LC_ALL") {
        "LC_ALL"
    } else if is_set_to_text(environment, "LC_CTYPE") {
        "LC_CTYPE"
    } else if is_set_to_text(environment, "LANG") {
        "LANG"
    } else {
        return false;
    };
    match environment.get(name) {
        Some(value) => names_utf8(value),
        None => false,
    }
}

/// A copy of a list of features.
pub(crate) fn copy_features(features: &Vec<String>) -> (copy: Vec<String>)
    ensures
        texts(copy@) == texts(features@),
{
    let mut copy: Vec<String> = Vec::new();
    let mut index: usize = 0;
    while index < features.len()
        invariant
            index <= features@.len(),
            copy@.len() == index,
            forall|i: int| 0 <= i < index ==> #[trigger] copy@[i]@ == features@[i]@,
        decreases features@.len() - index,
    {
        copy.push(features[index].clone());
        index = index + 1;
    }
    copy
}

/// The terminal of a client, given what it reports and what its environment says.
pub fn effective_client_terminal_context(
    client_environment: Option<&ClientEnvironment>,
    client_terminal: &ClientTerminalContext,
) -> (terminal: ClientTerminalContext)
    ensures
        terminal@ == effective_terminal(optional_environment(client_environment), client_terminal@),
{
    let mut utf8: bool = client_terminal.utf8 || client_environment_infers_utf8(client_environment);
    let mut terminal_features: Vec<String> = copy_features(&client_terminal.terminal_features);
    if client_environment_is_windows_terminal(client_environment) {
        utf8 = true;
        push_base_features(&mut terminal_features);
    }
    ClientTerminalContext { terminal_features, utf8 }
}

/// Where the environment of a client is taken from.
#[derive(Debug, Clone, Copy, PartialEq, Eq, Structural)]
pub enum EnvironmentSource {
    /// Nowhere.
    Nothing,
    /// From this process.
    OwnProcess,
    /// From the process of the client.
    Process(u32),
}

/// Where the environment of a client is taken from.
pub open spec fn environment_source(
    requester_pid: u32,
    own_pid: u32,
    hidden_daemon: bool,
) -> EnvironmentSource {
    if requester_pid != own_pid {
        EnvironmentSource::Process(requester_pid)
    } else if hidden_daemon {
        EnvironmentSource::OwnProcess
    } else {
        EnvironmentSource::Nothing
    }
}

/// The patterns in the value of an option.
pub open spec fn environment_patterns(value: Option<Seq<char>>) -> Seq<Seq<char>> {
    match value {
        Some(value) => words(value),
        None => Seq::empty(),
    }
}

/// The argument that a server which was started in the background has.
pub open spec fn daemon_flag() -> Seq<char> {
    "--__internal-daemon"@
}

/// Whether this process was started as a server in the background.
pub fn launched_as_hidden_daemon(arguments: &Vec<String>) -> (hidden: bool)
    ensures
        hidden == texts(arguments@).contains(daemon_flag()),
{
    let mut index: usize = 0;
    while index < arguments.len()
        invariant
            index <= arguments@.len(),
            forall|i: int| 0 <= i < index ==> texts(arguments@)[i] != daemon_flag(),
        decreases arguments@.len() - index,
    {
        if same_text(arguments[index].as_str(), "--__internal-daemon") {
            assert(texts(arguments@)[index as int] == daemon_flag());
            return true;
        }
        index = index + 1;
    }
    false
}

/// Where the environment of a client is taken from: the client's process, and where
/// that is this process, only if it was started as a server in the background.
pub fn client_environment_source(
    requester_pid: u32,
    own_pid: u32,
    hidden_daemon: bool,
) -> (source: EnvironmentSource)
    ensures
        source == (if requester_pid != own_pid {
            EnvironmentSource::Process(requester_pid)
        } else if hidden_daemon {
            EnvironmentSource::OwnProcess
        } else {
            EnvironmentSource::Nothing
        }),
        source == environment_source(requester_pid, own_pid, hidden_daemon),
{
    if requester_pid == own_pid {
        if hidden_daemon {
            EnvironmentSource::OwnProcess
        } else {
            EnvironmentSource::Nothing
        }
    } else {
        EnvironmentSource::Process(requester_pid)
    }
}

/// The patterns that name the variables a session takes over from a client.
pub fn update_environment_patterns(value: Option<&str>) -> (patterns: Vec<String>)
    ensures
        texts(patterns@) == (match value {
            Some(value) => words(value@),
            None => Seq::empty(),
        }),
        value is Some ==> texts(patterns@) == environment_patterns(Some(value->0@)),
        value is None ==> texts(patterns@) == environment_patterns(None),
{
    match value {
        Some(value) => split_words(value),
        None => {
            let patterns: Vec<String> = Vec::new();
            patterns
        },
    }
}

/// No two features are the same but for case.
pub open spec fn features_distinct(features: Seq<Seq<char>>) -> bool {
    forall|i: int, j: int|
        0 <= i < j < features.len() ==> lowercase(#[trigger] features[i]) != lowercase(
            #[trigger] features[j],
        )
}

/// Adding a feature keeps the features that were there, in their places, and adds
/// none that differs from another only in case; the feature is there afterwards.
pub proof fn added_feature_is_unique(features: Seq<Seq<char>>, feature: Seq<char>)
    ensures
        features_distinct(features) ==> features_distinct(with_feature(features, feature)),
        has_feature(with_feature(features, feature), feature),
        features.len() <= with_feature(features, feature).len(),
        with_feature(features, feature).take(features.len() as int) == features,
{
    let after = with_feature(features, feature);
    if !has_feature(features, feature) {
        assert(after[features.len() as int] == feature);
    }
}

/// Adding a feature keeps every feature that is there.
proof fn added_feature_keeps_others(
    features: Seq<Seq<char>>,
    feature: Seq<char>,
    other: Seq<char>,
)
    requires
        has_feature(features, other),
    ensures
        has_feature(with_feature(features, feature), other),
{
    let i = choose|i: int|
        0 <= i < features.len() && lowercase(#[trigger] features[i]) == lowercase(other);
    assert(with_feature(features, feature)[i] == features[i]);
}

/// The base features are all there once they were added, in any case, and what was
/// there before is kept.
pub proof fn base_features_are_advertised(features: Seq<Seq<char>>)
    ensures
        ({
            let after = with_base_features(features);
            &&& has_feature(after, "sync"@)
            &&& has_feature(after, "bpaste"@)
            &&& has_feature(after, "mouse"@)
            &&& has_feature(after, "clipboard"@)
            &&& features.len() <= after.len()
            &&& after.take(features.len() as int) == features
            &&& features_distinct(features) ==> features_distinct(after)
        }),
{
    let one = with_feature(features, "sync"@);
    let two = with_feature(one, "bpaste"@);
    let three = with_feature(two, "mouse"@);
    let after = with_feature(three, "clipboard"@);
    added_feature_is_unique(features, "sync"@);
    added_feature_is_unique(one, "bpaste"@);
    added_feature_is_unique(two, "mouse"@);
    added_feature_is_unique(three, "clipboard"@);
    added_feature_keeps_others(one, "bpaste"@, "sync"@);
    added_feature_keeps_others(two, "mouse"@, "sync"@);
    added_feature_keeps_others(three, "clipboard"@, "sync"@);
    added_feature_keeps_others(two, "mouse"@, "bpaste"@);
    added_feature_keeps_others(three, "clipboard"@, "bpaste"@);
    added_feature_keeps_others(three, "clipboard"@, "mouse"@);
}

/// Working out the terminal of a client a second time changes nothing.
pub proof fn effective_terminal_is_settled(
    environment: Option<Map<Seq<char>, Seq<char>>>,
    reported: Terminal,
)
    ensures
        ({
            let once = effective_terminal(environment, reported);
            effective_terminal(environment, once) == once
        }),
{
    base_features_are_advertised(reported.features);
}

} // verus!
