//! Default metadata for events by the token that they came with.
use vstd::prelude::*;

use vstd::slice::slice_subrange;

use crate::string_map::StringMap;
use crate::text;

verus! {

/// Configuration for a single token binding entry.
#[derive(Debug)]
pub struct TokenBindingConfig {
    /// The default index for events received with this token.
    pub index: Option<String>,
    /// The default sourcetype for events received with this token.
    pub sourcetype: Option<String>,
    /// The default source for events received with this token.
    pub source: Option<String>,
}

impl Default for TokenBindingConfig {
    fn default() -> (config: Self)
        ensures
            config.index is None,
            config.sourcetype is None,
            config.source is None,
    {
        TokenBindingConfig { index: None, sourcetype: None, source: None }
    }
}

/// Resolved token binding with metadata defaults.
#[derive(Debug)]
pub struct TokenBinding {
    pub index: Option<String>,
    pub sourcetype: Option<String>,
    pub source: Option<String>,
}

/// The metadata defaults of a binding, as texts.
pub struct BindingView {
    pub index: Option<Seq<char>>,
    pub sourcetype: Option<Seq<char>>,
    pub source: Option<Seq<char>>,
}

impl Clone for TokenBindingConfig {
    fn clone(&self) -> (copy: Self)
        ensures
            copy == *self,
    {
        TokenBindingConfig {
            index: self.index.clone(),
            sourcetype: self.sourcetype.clone(),
            source: self.source.clone(),
        }
    }
}

impl View for TokenBindingConfig {
    type V = BindingView;

    open spec fn view(&self) -> BindingView {
        BindingView {
            index: text::text_of(self.index),
            sourcetype: text::text_of(self.sourcetype),
            source: text::text_of(self.source),
        }
    }
}

impl Clone for TokenBinding {
    fn clone(&self) -> (copy: Self)
        ensures
            copy == *self,
    {
        TokenBinding {
            index: self.index.clone(),
            sourcetype: self.sourcetype.clone(),
            source: self.source.clone(),
        }
    }
}

impl View for TokenBinding {
    type V = BindingView;

    open spec fn view(&self) -> BindingView {
        BindingView {
            index: text::text_of(self.index),
            sourcetype: text::text_of(self.sourcetype),
            source: text::text_of(self.source),
        }
    }
}

impl<'a> From<&'a TokenBindingConfig> for TokenBinding {
    fn from(config: &'a TokenBindingConfig) -> (binding: Self) {
        TokenBinding {
            index: config.index.clone(),
            sourcetype: config.sourcetype.clone(),
            source: config.source.clone(),
        }
    }
}

impl<'a> vstd::std_specs::convert::FromSpecImpl<&'a TokenBindingConfig> for TokenBinding {
    open spec fn obeys_from_spec() -> bool {
        true
    }

    open spec fn from_spec(config: &'a TokenBindingConfig) -> TokenBinding {
        TokenBinding {
            index: config.index,
            sourcetype: config.sourcetype,
            source: config.source,
        }
    }
}

/// The bindings of a map, as texts.
pub open spec fn bindings_view(bindings: Map<Seq<char>, TokenBinding>) -> Map<
    Seq<char>,
    BindingView,
> {
    bindings.map_values(|b: TokenBinding| b@)
}

/// The configured bindings, as texts.
pub open spec fn config_view(bindings: Map<Seq<char>, TokenBindingConfig>) -> Map<
    Seq<char>,
    BindingView,
> {
    bindings.map_values(|b: TokenBindingConfig| b@)
}

/// What an `[http://...]` stanza of inputs.conf has set so far.
pub struct StanzaView {
    pub name: Seq<char>,
    pub token: Option<Seq<char>>,
    pub binding: BindingView,
    pub disabled: bool,
}

/// A stanza in which nothing is set.
pub open spec fn empty_stanza(name: Seq<char>) -> StanzaView {
    StanzaView {
        name,
        token: None,
        binding: BindingView { index: None, sourcetype: None, source: None },
        disabled: false,
    }
}

/// A line that says nothing: blank, or a comment.
pub open spec fn is_skipped(line: Seq<char>) -> bool {
    line.len() == 0 || line[0] == '#' || line[0] == ';'
}

/// A line in square brackets, which opens a section.
pub open spec fn is_header(line: Seq<char>) -> bool {
    line.len() > 0 && line[0] == '[' && line.last() == ']'
}

/// The name of the section that a header opens: what stands in the brackets.
pub open spec fn section_name(line: Seq<char>) -> Seq<char> {
    line.subrange(1, line.len() - 1)
}

/// A header whose section holds a token.
pub open spec fn is_http_header(line: Seq<char>) -> bool {
    is_header(line) && "http://"@.is_prefix_of(section_name(line))
}

/// The values of `disabled` that switch a stanza off.
pub open spec fn switches_off(value: Seq<char>) -> bool {
    value == "1"@ || text::ascii_lowered(value) == text::ascii_lowered("true"@)
}

/// The stanza after a line `key = value`; other lines and other keys change nothing.
pub open spec fn with_setting(stanza: StanzaView, line: Seq<char>) -> StanzaView {
    match text::split_once(line, '=') {
        None => stanza,
        Some((left, right)) => {
            let key = text::unicode_lowercase(text::trimmed(left));
            let value = text::trimmed(right);
            if key == "disabled"@ {
                StanzaView { disabled: switches_off(value), ..stanza }
            } else if key == "token"@ {
                StanzaView { token: Some(value), ..stanza }
            } else if key == "index"@ {
                StanzaView {
                    binding: BindingView { index: Some(value), ..stanza.binding },
                    ..stanza
                }
            } else if key == "sourcetype"@ {
                StanzaView {
                    binding: BindingView { sourcetype: Some(value), ..stanza.binding },
                    ..stanza
                }
            } else if key == "source"@ {
                StanzaView {
                    binding: BindingView { source: Some(value), ..stanza.binding },
                    ..stanza
                }
            } else {
                stanza
            }
        },
    }
}

/// The bindings with what a finished stanza adds: nothing where it is disabled or has no token.
pub open spec fn closed(
    bindings: Map<Seq<char>, BindingView>,
    stanza: Option<StanzaView>,
) -> Map<Seq<char>, BindingView> {
    match stanza {
        Some(s) => match s.token {
            Some(token) => if s.disabled {
                bindings
            } else {
                bindings.insert(token, s.binding)
            },
            None => bindings,
        },
        None => bindings,
    }
}

/// The names of stanzas that a token is missing from, with that of a finished stanza where it is
/// enabled and has none.
pub open spec fn noticed(names: Seq<Seq<char>>, stanza: Option<StanzaView>) -> Seq<Seq<char>> {
    match stanza {
        Some(s) => if !s.disabled && s.token is None {
            names.push(s.name)
        } else {
            names
        },
        None => names,
    }
}

/// How far the reading of inputs.conf has come: the bindings of the finished stanzas, the names of
/// those that a token is missing from, and the stanza that is open, if the section is one that
/// holds a token.
pub struct ConfState {
    pub bindings: Map<Seq<char>, BindingView>,
    pub tokenless: Seq<Seq<char>>,
    pub stanza: Option<StanzaView>,
}

/// The state after one more line, already trimmed.
pub open spec fn after_line(state: ConfState, line: Seq<char>) -> ConfState {
    if is_skipped(line) {
        state
    } else if is_header(line) {
        ConfState {
            bindings: closed(state.bindings, state.stanza),
            tokenless: noticed(state.tokenless, state.stanza),
            stanza: if is_http_header(line) {
                Some(empty_stanza(section_name(line)))
            } else {
                None
            },
        }
    } else {
        match state.stanza {
            Some(s) => ConfState { stanza: Some(with_setting(s, line)), ..state },
            None => state,
        }
    }
}

/// The state after all these lines.
pub open spec fn after_lines(lines: Seq<Seq<char>>) -> ConfState
    decreases lines.len(),
{
    if lines.len() == 0 {
        ConfState { bindings: Map::empty(), tokenless: Seq::empty(), stanza: None }
    } else {
        after_line(after_lines(lines.drop_last()), text::trimmed(lines.last()))
    }
}

/// The bindings that these lines of inputs.conf set up.
pub open spec fn bindings_of_lines(lines: Seq<Seq<char>>) -> Map<Seq<char>, BindingView> {
    let state = after_lines(lines);
    closed(state.bindings, state.stanza)
}

/// The bindings that the content of inputs.conf sets up.
pub open spec fn conf_bindings(content: Seq<char>) -> Map<Seq<char>, BindingView> {
    bindings_of_lines(text::split_on(content, '\n'))
}

/// The names of the stanzas among these lines of inputs.conf that are enabled and have no token,
/// in their order.
pub open spec fn tokenless_of_lines(lines: Seq<Seq<char>>) -> Seq<Seq<char>> {
    let state = after_lines(lines);
    noticed(state.tokenless, state.stanza)
}

/// The names of the stanzas in the content of inputs.conf that are enabled and have no token.
pub open spec fn conf_tokenless(content: Seq<char>) -> Seq<Seq<char>> {
    tokenless_of_lines(text::split_on(content, '\n'))
}

/// The texts of names.
pub open spec fn names_view(names: Seq<String>) -> Seq<Seq<char>> {
    names.map_values(|name: String| name@)
}

/// What the open stanza has set.
struct Stanza {
    name: String,
    token: Option<String>,
    index: Option<String>,
    sourcetype: Option<String>,
    source: Option<String>,
    disabled: bool,
}

impl Stanza {
    spec fn view(self) -> StanzaView {
        StanzaView {
            name: self.name@,
            token: text::text_of(self.token),
            binding: BindingView {
                index: text::text_of(self.index),
                sourcetype: text::text_of(self.sourcetype),
                source: text::text_of(self.source),
            },
            disabled: self.disabled,
        }
    }
}

spec fn stanza_view(stanza: Option<Stanza>) -> Option<StanzaView> {
    match stanza {
        Some(s) => Some(s.view()),
        None => None,
    }
}

/// Takes one line of a stanza into account.
fn apply_setting(stanza: &mut Stanza, line: &[char])
    ensures
        final(stanza).view() == with_setting(old(stanza).view(), line@),
{
    let at = text::find(line, '=');
    if at == line.len() {
        return ;
    }
    let left = slice_subrange(line, 0, at);
    let right = slice_subrange(line, at + 1, line.len());
    assert(left@ =~= line@.take(at as int));
    assert(right@ =~= line@.skip(at + 1));
    let key = text::string_of(text::trim(left)).to_lowercase();
    let value = text::trim(right);
    if text::str_eq(&key, "disabled") {
        stanza.disabled = is_off(value);
    } else if text::str_eq(&key, "token") {
        stanza.token = Some(text::string_of(value));
    } else if text::str_eq(&key, "index") {
        stanza.index = Some(text::string_of(value));
    } else if text::str_eq(&key, "sourcetype") {
        stanza.sourcetype = Some(text::string_of(value));
    } else if text::str_eq(&key, "source") {
        stanza.source = Some(text::string_of(value));
    }
}

/// Whether a value of `disabled` switches the stanza off.
fn is_off(value: &[char]) -> (off: bool)
    ensures
        off == switches_off(value@),
{
    let word = text::string_of(value);
    if text::str_eq(&word, "1") {
        return true;
    }
    let lower = text::string_of(&text::lowered(value));
    let expected = text::string_of(&text::lowered(&text::chars_of("true")));
    text::str_eq(&lower, &expected)
}

/// Adds what a finished stanza binds, or its name where a token is missing from it.
fn close_stanza(
    bindings: &mut StringMap<TokenBinding>,
    tokenless: &mut Vec<String>,
    stanza: Option<Stanza>,
)
    ensures
        bindings_view(final(bindings)@) == closed(
            bindings_view(old(bindings)@),
            stanza_view(stanza),
        ),
        names_view(final(tokenless)@) == noticed(
            names_view(old(tokenless)@),
            stanza_view(stanza),
        ),
{
    if let Some(s) = stanza {
        if !s.disabled {
            if let Some(token) = s.token {
                bindings.insert(
                    token,
                    TokenBinding { index: s.index, sourcetype: s.sourcetype, source: s.source },
                );
            } else {
                tokenless.push(s.name);
            }
        }
    }
    assert(bindings_view(bindings@) =~= closed(
        bindings_view(old(bindings)@),
        stanza_view(stanza),
    ));
    assert(names_view(tokenless@) =~= noticed(
        names_view(old(tokenless)@),
        stanza_view(stanza),
    ));
}

/// Reads the content of inputs.conf: its bindings, and the names of the enabled stanzas without a
/// token.
fn read_conf(content: &str) -> (read: (StringMap<TokenBinding>, Vec<String>))
    ensures
        bindings_view(read.0@) == conf_bindings(content@),
        names_view(read.1@) == conf_tokenless(content@),
{
    let mut bindings: StringMap<TokenBinding> = StringMap::new();
    let mut tokenless: Vec<String> = Vec::new();
    let mut stanza: Option<Stanza> = None;
    let chars = text::chars_of(content);
    let lines = text::split(&chars, '\n');
    let ghost all = text::split_on(content@, '\n');
    assert(bindings_view(bindings@) =~= after_lines(all.take(0)).bindings);
    assert(names_view(tokenless@) =~= after_lines(all.take(0)).tokenless);
    for i in 0..lines.len()
        invariant
            lines.len() == all.len(),
            forall|j: int| 0 <= j < lines.len() ==> (#[trigger] lines[j])@ == all[j],
            bindings_view(bindings@) == after_lines(all.take(i as int)).bindings,
            names_view(tokenless@) == after_lines(all.take(i as int)).tokenless,
            stanza_view(stanza) == after_lines(all.take(i as int)).stanza,
    {
        assert(all.take(i + 1).drop_last() =~= all.take(i as int));
        let line = text::trim(&lines[i]);
        if line.len() == 0 || line[0] == '#' || line[0] == ';' {
            // Nothing to read here.
        } else if line[0] == '[' && line[line.len() - 1] == ']' {
            close_stanza(&mut bindings, &mut tokenless, stanza);
            let name = slice_subrange(line, 1, line.len() - 1);
            if text::starts_with(name, &text::chars_of("http://")) {
                stanza = Some(
                    Stanza {
                        name: text::string_of(name),
                        token: None,
                        index: None,
                        sourcetype: None,
                        source: None,
                        disabled: false,
                    },
                );
            } else {
                stanza = None;
            }
        } else if let Some(s) = stanza.as_mut() {
            apply_setting(s, line);
        }
    }
    assert(all.take(all.len() as int) =~= all);
    close_stanza(&mut bindings, &mut tokenless, stanza);
    (bindings, tokenless)
}

/// Parse Splunk inputs.conf content into token bindings.
///
/// Format:
/// ```ini
/// [http://stanza_name]
/// disabled = 0
/// token = <uuid>
/// index = <index_name>
/// sourcetype = <sourcetype>
/// source = <source>
/// ```
///
/// Rules:
/// - Only `[http://...]` sections are processed (skip global `[http]` or other sections)
/// - Stanzas with `disabled = 1` or `disabled = true` are skipped
/// - Stanzas without a `token` field are skipped with a warning; `tokenless_stanzas` names them
pub fn parse_inputs_conf(content: &str) -> (parsed: Result<StringMap<TokenBinding>, String>)
    ensures
        parsed matches Ok(bindings) && bindings_view(bindings@) == conf_bindings(content@),
{
    let (bindings, _) = read_conf(content);
    Ok(bindings)
}

/// The names of the `[http://...]` stanzas in inputs.conf content that `parse_inputs_conf` skips
/// with a warning: those that are enabled and have no `token` field, in their order. A name is what
/// stands in the brackets.
pub fn tokenless_stanzas(content: &str) -> (names: Vec<String>)
    ensures
        names_view(names@) == conf_tokenless(content@),
{
    let (_, tokenless) = read_conf(content);
    tokenless
}

/// Engine that resolves token strings to their metadata bindings.
#[derive(Debug)]
pub struct TokenBindingEngine {
    bindings: StringMap<TokenBinding>,
}

impl View for TokenBindingEngine {
    type V = Map<Seq<char>, BindingView>;

    closed spec fn view(&self) -> Map<Seq<char>, BindingView> {
        bindings_view(self.bindings@)
    }
}

impl Clone for TokenBindingEngine {
    fn clone(&self) -> (copy: Self)
        ensures
            copy@ == self@,
    {
        let bindings = self.bindings.clone();
        assert(bindings_view(bindings@) =~= bindings_view(self.bindings@));
        TokenBindingEngine { bindings }
    }
}

impl Default for TokenBindingEngine {
    fn default() -> (engine: Self)
        ensures
            engine@ == Map::<Seq<char>, BindingView>::empty(),
    {
        let bindings: StringMap<TokenBinding> = StringMap::new();
        assert(bindings_view(bindings@) =~= Map::empty());
        TokenBindingEngine { bindings }
    }
}

/// Binds every configured token, in place of what it was bound to.
fn overlay(bindings: &mut StringMap<TokenBinding>, config: &StringMap<TokenBindingConfig>)
    ensures
        bindings_view(final(bindings)@) == bindings_view(old(bindings)@).union_prefer_right(
            config_view(config@),
        ),
{
    let n = config.len();
    let ghost keys = config.keys();
    let ghost wanted = config_view(config@);
    let ghost start = bindings_view(bindings@);
    for i in 0..n
        invariant
            n == keys.len(),
            keys == config.keys(),
            wanted == config_view(config@),
            forall|k: Seq<char>| #[trigger]
                bindings_view(bindings@).dom().contains(k) <==> start.dom().contains(k)
                    || keys.take(i as int).contains(k),
            forall|k: Seq<char>| #[trigger]
                bindings_view(bindings@).dom().contains(k) ==> bindings_view(bindings@)[k] == if (
                keys.take(i as int).contains(k)) {
                    wanted[k]
                } else {
                    start[k]
                },
    {
        let (token, cfg) = config.entry(i);
        let ghost before = bindings_view(bindings@);
        bindings.insert(token.clone(), TokenBinding::from(cfg));
        proof {
            assert(bindings_view(bindings@) =~= before.insert(token@, cfg@));
            let longer = keys.take(i + 1);
            let shorter = keys.take(i as int);
            assert(longer[i as int] == token@);
            assert forall|k: Seq<char>| #[trigger]
                longer.contains(k) == (shorter.contains(k) || k == token@) by {
                if shorter.contains(k) {
                    let j = shorter.index_of(k);
                    assert(longer[j] == k);
                }
                if longer.contains(k) && k != token@ {
                    let j = longer.index_of(k);
                    assert(shorter[j] == k);
                }
            }
            assert(wanted[token@] == cfg@);
        }
    }
    proof {
        assert(keys.take(n as int) =~= keys);
        assert forall|k: Seq<char>| keys.contains(k) == wanted.dom().contains(k) by {
            assert(keys.contains(k) == keys.to_set().contains(k));
        }
        assert(bindings_view(bindings@) =~= start.union_prefer_right(wanted));
    }
}

impl TokenBindingEngine {
    /// Create from inline config bindings.
    pub fn from_config(config_bindings: &StringMap<TokenBindingConfig>) -> (engine: Self)
        ensures
            engine@ == config_view(config_bindings@),
    {
        let mut bindings: StringMap<TokenBinding> = StringMap::new();
        overlay(&mut bindings, config_bindings);
        assert(bindings_view(bindings@) =~= config_view(config_bindings@));
        TokenBindingEngine { bindings }
    }

    /// Create from the content of inputs.conf, if there is one, merging with existing config
    /// bindings. Config bindings take precedence over inputs.conf bindings on conflict.
    pub fn from_config_and_inputs_conf(
        config_bindings: &StringMap<TokenBindingConfig>,
        inputs_conf: Option<&str>,
    ) -> (engine: Result<Self, String>)
        ensures
            engine matches Ok(e) && e@ == (match inputs_conf {
                Some(content) => conf_bindings(content@),
                None => Map::empty(),
            }).union_prefer_right(config_view(config_bindings@)),
    {
        // inputs.conf first (lower priority)
        let mut bindings: StringMap<TokenBinding> = match inputs_conf {
            Some(content) => match parse_inputs_conf(content) {
                Ok(parsed) => parsed,
                Err(reason) => return Err(reason),
            },
            None => StringMap::new(),
        };
        assert(inputs_conf is None ==> bindings_view(bindings@) =~= Map::empty());
        // Config bindings on top (higher priority)
        overlay(&mut bindings, config_bindings);
        Ok(TokenBindingEngine { bindings })
    }

    /// Resolve a token to its binding. The token should be the raw token string
    /// (without "Splunk " prefix).
    pub fn resolve(&self, token: &str) -> (binding: Option<&TokenBinding>)
        ensures
            match binding {
                Some(b) => self@.dom().contains(token@) && b@ == self@[token@],
                None => !self@.dom().contains(token@),
            },
    {
        self.bindings.get(token)
    }

    /// Returns true if the engine has no bindings.
    pub fn is_empty(&self) -> (empty: bool)
        ensures
            empty == (self@ == Map::<Seq<char>, BindingView>::empty()),
    {
        proof {
            if self@ == Map::<Seq<char>, BindingView>::empty() {
                assert(self@.dom() =~= self.bindings@.dom());
                assert(self.bindings@ =~= Map::empty());
            } else if self.bindings@ == Map::<Seq<char>, TokenBinding>::empty() {
                assert(self@ =~= Map::empty());
            }
        }
        self.bindings.is_empty()
    }
}

/// The state after more lines, from any state.
spec fn continued(state: ConfState, lines: Seq<Seq<char>>) -> ConfState
    decreases lines.len(),
{
    if lines.len() == 0 {
        state
    } else {
        after_line(continued(state, lines.drop_last()), text::trimmed(lines.last()))
    }
}

proof fn lemma_after_lines_split(before: Seq<Seq<char>>, lines: Seq<Seq<char>>)
    ensures
        after_lines(before + lines) == continued(after_lines(before), lines),
    decreases lines.len(),
{
    if lines.len() == 0 {
        assert(before + lines =~= before);
    } else {
        lemma_after_lines_split(before, lines.drop_last());
        assert((before + lines).drop_last() =~= before + lines.drop_last());
        assert((before + lines).last() == lines.last());
    }
}

/// A blank line or a comment, wherever it stands, changes nothing.
pub proof fn law_skipped_line_changes_nothing(
    before: Seq<Seq<char>>,
    line: Seq<char>,
    after: Seq<Seq<char>>,
)
    requires
        is_skipped(text::trimmed(line)),
    ensures
        bindings_of_lines(before.push(line) + after) == bindings_of_lines(before + after),
        tokenless_of_lines(before.push(line) + after) == tokenless_of_lines(before + after),
{
    lemma_after_lines_split(before.push(line), after);
    lemma_after_lines_split(before, after);
    assert(before.push(line).drop_last() =~= before);
}

/// What the lines of one stanza's body set, comments and blank lines aside.
pub open spec fn stanza_settings(name: Seq<char>, body: Seq<Seq<char>>) -> StanzaView
    decreases body.len(),
{
    if body.len() == 0 {
        empty_stanza(name)
    } else {
        let line = text::trimmed(body.last());
        if is_skipped(line) {
            stanza_settings(name, body.drop_last())
        } else {
            with_setting(stanza_settings(name, body.drop_last()), line)
        }
    }
}

/// Whether none of these lines opens a section.
pub open spec fn no_headers(lines: Seq<Seq<char>>) -> bool {
    forall|i: int| 0 <= i < lines.len() ==> !is_header(text::trimmed(#[trigger] lines[i]))
}

/// An `[http://...]` stanza adds exactly the binding that its own lines set, whatever came before,
/// and is named exactly if they enable it and set no token.
pub proof fn law_stanza_binds_its_own_settings(
    before: Seq<Seq<char>>,
    header: Seq<char>,
    body: Seq<Seq<char>>,
)
    requires
        is_http_header(text::trimmed(header)),
        no_headers(body),
    ensures
        bindings_of_lines(before.push(header) + body) == closed(
            bindings_of_lines(before),
            Some(stanza_settings(section_name(text::trimmed(header)), body)),
        ),
        tokenless_of_lines(before.push(header) + body) == noticed(
            tokenless_of_lines(before),
            Some(stanza_settings(section_name(text::trimmed(header)), body)),
        ),
{
    lemma_open_stanza(before, header, body);
}

proof fn lemma_open_stanza(before: Seq<Seq<char>>, header: Seq<char>, body: Seq<Seq<char>>)
    requires
        is_http_header(text::trimmed(header)),
        no_headers(body),
    ensures
        after_lines(before.push(header) + body) == (ConfState {
            bindings: bindings_of_lines(before),
            tokenless: tokenless_of_lines(before),
            stanza: Some(stanza_settings(section_name(text::trimmed(header)), body)),
        }),
    decreases body.len(),
{
    let lines = before.push(header) + body;
    if body.len() == 0 {
        assert(lines =~= before.push(header));
        assert(lines.drop_last() =~= before);
    } else {
        let shorter = body.drop_last();
        assert forall|i: int| 0 <= i < shorter.len() implies !is_header(
            text::trimmed(#[trigger] shorter[i]),
        ) by {
            assert(shorter[i] == body[i]);
        }
        lemma_open_stanza(before, header, shorter);
        assert(lines.drop_last() =~= before.push(header) + shorter);
        assert(lines.last() == body[body.len() - 1]);
    }
}

/// A stanza that ends disabled, or without a token, adds no binding, and the bindings of the
/// sections after it are as if it were not there.
pub proof fn law_disabled_or_tokenless_stanza_adds_nothing(
    before: Seq<Seq<char>>,
    header: Seq<char>,
    body: Seq<Seq<char>>,
    after: Seq<Seq<char>>,
)
    requires
        is_http_header(text::trimmed(header)),
        no_headers(body),
        ({
            let stanza = stanza_settings(section_name(text::trimmed(header)), body);
            stanza.disabled || stanza.token is None
        }),
        after.len() > 0 ==> is_header(text::trimmed(after[0])),
    ensures
        bindings_of_lines(before.push(header) + body + after) == bindings_of_lines(before + after),
{
    let first = before.push(header) + body;
    lemma_open_stanza(before, header, body);
    lemma_after_lines_split(first, after);
    lemma_after_lines_split(before, after);
    if after.len() > 0 {
        lemma_header_starts_afresh(after_lines(first), after_lines(before), after);
    }
}

proof fn lemma_header_starts_afresh(a: ConfState, b: ConfState, lines: Seq<Seq<char>>)
    requires
        closed(a.bindings, a.stanza) == closed(b.bindings, b.stanza),
        lines.len() > 0,
        is_header(text::trimmed(lines[0])),
    ensures
        continued(a, lines).bindings == continued(b, lines).bindings,
        continued(a, lines).stanza == continued(b, lines).stanza,
    decreases lines.len(),
{
    let shorter = lines.drop_last();
    if lines.len() == 1 {
        assert(continued(a, shorter) == a);
        assert(continued(b, shorter) == b);
    } else {
        assert(shorter[0] == lines[0]);
        lemma_header_starts_afresh(a, b, shorter);
    }
}

/// An enabled stanza without a token is named; one that is disabled or has a token is not.
pub proof fn law_tokenless_stanzas_are_named(
    before: Seq<Seq<char>>,
    header: Seq<char>,
    body: Seq<Seq<char>>,
)
    requires
        is_http_header(text::trimmed(header)),
        no_headers(body),
    ensures
        ({
            let name = section_name(text::trimmed(header));
            let stanza = stanza_settings(name, body);
            tokenless_of_lines(before.push(header) + body) == if !stanza.disabled
                && stanza.token is None {
                tokenless_of_lines(before).push(name)
            } else {
                tokenless_of_lines(before)
            }
        }),
{
    lemma_open_stanza(before, header, body);
    lemma_settings_keep_the_name(section_name(text::trimmed(header)), body);
}

proof fn lemma_settings_keep_the_name(name: Seq<char>, body: Seq<Seq<char>>)
    ensures
        stanza_settings(name, body).name == name,
    decreases body.len(),
{
    if body.len() > 0 {
        lemma_settings_keep_the_name(name, body.drop_last());
    }
}

/// A section other than `[http://...]` adds no binding and is not named, whatever its lines say.
pub proof fn law_other_sections_add_nothing(
    before: Seq<Seq<char>>,
    header: Seq<char>,
    body: Seq<Seq<char>>,
)
    requires
        is_header(text::trimmed(header)),
        !is_http_header(text::trimmed(header)),
        no_headers(body),
    ensures
        bindings_of_lines(before.push(header) + body) == bindings_of_lines(before),
        tokenless_of_lines(before.push(header) + body) == tokenless_of_lines(before),
{
    lemma_other_section(before, header, body);
}

proof fn lemma_other_section(before: Seq<Seq<char>>, header: Seq<char>, body: Seq<Seq<char>>)
    requires
        is_header(text::trimmed(header)),
        !is_http_header(text::trimmed(header)),
        no_headers(body),
    ensures
        after_lines(before.push(header) + body) == (ConfState {
            bindings: bindings_of_lines(before),
            tokenless: tokenless_of_lines(before),
            stanza: None,
        }),
    decreases body.len(),
{
    let lines = before.push(header) + body;
    if body.len() == 0 {
        assert(lines =~= before.push(header));
        assert(lines.drop_last() =~= before);
    } else {
        let shorter = body.drop_last();
        assert forall|i: int| 0 <= i < shorter.len() implies !is_header(
            text::trimmed(#[trigger] shorter[i]),
        ) by {
            assert(shorter[i] == body[i]);
        }
        lemma_other_section(before, header, shorter);
        assert(lines.drop_last() =~= before.push(header) + shorter);
        assert(lines.last() == body[body.len() - 1]);
    }
}

} // verus!
