//! What holds of every inputs.conf: which bindings its lines set up, from the text of the lines.
use vstd::prelude::*;

use crate::raw_laws;
use crate::text;
use crate::text_laws;
use crate::token_binding;
use crate::token_binding::{BindingView, StanzaView, TokenBinding, TokenBindingConfig};

verus! {

/// The value that a line of inputs.conf gives to a key: what stands after the first `=`, trimmed,
/// where what stands before it, trimmed and in lower case, is the key. Comments give nothing.
pub open spec fn line_gives(line: Seq<char>, key: Seq<char>) -> Option<Seq<char>> {
    let said = text::trimmed(line);
    if said.len() == 0 || said[0] == '#' || said[0] == ';' {
        None
    } else {
        match text::split_once(said, '=') {
            Some((left, right)) => if text::unicode_lowercase(text::trimmed(left)) == key {
                Some(text::trimmed(right))
            } else {
                None
            },
            None => None,
        }
    }
}

/// The value that the last of these lines gives to a key, of those that give it one.
pub open spec fn last_given(lines: Seq<Seq<char>>, key: Seq<char>) -> Option<Seq<char>>
    decreases lines.len(),
{
    if lines.len() == 0 {
        None
    } else {
        match line_gives(lines.last(), key) {
            Some(v) => Some(v),
            None => last_given(lines.drop_last(), key),
        }
    }
}

/// A line `key = value`, with any white space around the key and the value, gives the key exactly
/// the characters of the value.
pub proof fn law_lines_give_their_values_as_written(
    lead: Seq<char>,
    name: Seq<char>,
    before: Seq<char>,
    after: Seq<char>,
    v: Seq<char>,
    tail: Seq<char>,
)
    requires
        text_laws::all_space(lead),
        text_laws::all_space(before),
        text_laws::all_space(after),
        text_laws::all_space(tail),
        name.len() > 0,
        !text::is_space(name[0]),
        !text::is_space(name.last()),
        name[0] != '#' && name[0] != ';',
        !name.contains('='),
        v.len() > 0 ==> !text::is_space(v[0]) && !text::is_space(v.last()),
    ensures
        line_gives(
            lead + name + before + seq!['='] + after + v + tail,
            text::unicode_lowercase(name),
        ) == Some(v),
{
    let line = lead + name + before + seq!['='] + after + v + tail;
    let left = name + before;
    assert forall|i: int| 0 <= i < left.len() implies left[i] != '=' by {
        if i < name.len() {
            assert(name[i] != '=');
        } else {
            assert(text::is_space(before[i - name.len()]));
        }
    }
    text_laws::law_trimming_undoes_white_space_around(Seq::empty(), name, before);
    assert(Seq::<char>::empty() + name + before =~= left);
    if v.len() > 0 {
        let said = left + seq!['='] + (after + v);
        assert(lead + said + tail =~= line);
        assert(said[0] == name[0]);
        assert(said.last() == v.last());
        text_laws::law_trimming_undoes_white_space_around(lead, said, tail);
        text_laws::law_cutting_once_undoes_joining(left, '=', after + v);
        text_laws::law_trimming_undoes_white_space_around(after, v, Seq::empty());
        assert(after + v + Seq::<char>::empty() =~= after + v);
    } else {
        let said = left + seq!['='] + Seq::<char>::empty();
        let end = after + tail;
        assert(lead + said + end =~= line);
        assert(said[0] == name[0]);
        assert(said.last() == '=');
        text_laws::law_trimming_undoes_white_space_around(lead, said, end);
        text_laws::law_cutting_once_undoes_joining(left, '=', Seq::empty());
        text_laws::law_trimming_undoes_white_space_around(Seq::empty(), v, Seq::empty());
        assert(Seq::<char>::empty() + v + Seq::<char>::empty() =~= Seq::empty());
        assert(v =~= Seq::empty());
    }
}

/// What a stanza says of itself is what the last of its lines for it says.
pub proof fn law_the_last_line_counts(
    lines: Seq<Seq<char>>,
    k: int,
    key: Seq<char>,
    v: Seq<char>,
)
    requires
        0 <= k < lines.len(),
        line_gives(lines[k], key) == Some(v),
        forall|j: int| k < j < lines.len() ==> line_gives(#[trigger] lines[j], key) is None,
    ensures
        last_given(lines, key) == Some(v),
    decreases lines.len(),
{
    let front = lines.drop_last();
    if k < lines.len() - 1 {
        assert(line_gives(lines[lines.len() - 1], key) is None);
        assert forall|j: int| k < j < front.len() implies line_gives(
            #[trigger] front[j],
            key,
        ) is None by {
            assert(front[j] == lines[j]);
        }
        law_the_last_line_counts(front, k, key, v);
    }
}

/// Whether a line, trimmed, stands in square brackets.
pub open spec fn in_brackets(line: Seq<char>) -> bool {
    let said = text::trimmed(line);
    said.len() > 0 && said[0] == '[' && said.last() == ']'
}

/// Whether none of these lines stands in square brackets.
pub open spec fn none_in_brackets(lines: Seq<Seq<char>>) -> bool {
    forall|i: int| 0 <= i < lines.len() ==> !in_brackets(#[trigger] lines[i])
}

/// Whether a value of `disabled` switches its stanza off: `1`, or `true` in whatever case.
pub open spec fn means_off(v: Option<Seq<char>>) -> bool {
    v matches Some(v) && (v == "1"@ || text::ascii_lowered(v) == "true"@)
}

proof fn lemma_keys()
    ensures
        "disabled"@ != "token"@,
        "disabled"@ != "index"@,
        "disabled"@ != "sourcetype"@,
        "disabled"@ != "source"@,
        "token"@ != "index"@,
        "token"@ != "sourcetype"@,
        "token"@ != "source"@,
        "index"@ != "sourcetype"@,
        "index"@ != "source"@,
        "sourcetype"@ != "source"@,
        text::ascii_lowered("true"@) == "true"@,
{
    reveal_strlit("disabled");
    reveal_strlit("token");
    reveal_strlit("index");
    reveal_strlit("sourcetype");
    reveal_strlit("source");
    reveal_strlit("true");
    assert("disabled"@.len() == 8 && "token"@.len() == 5 && "index"@.len() == 5);
    assert("sourcetype"@.len() == 10 && "source"@.len() == 6);
    assert("token"@[0] == 't' && "index"@[0] == 'i');
    assert(text::ascii_lowered("true"@) =~= "true"@);
}

proof fn lemma_settings_are_last_given(name: Seq<char>, body: Seq<Seq<char>>)
    ensures
        token_binding::stanza_settings(name, body) == (StanzaView {
            name,
            token: last_given(body, "token"@),
            binding: BindingView {
                index: last_given(body, "index"@),
                sourcetype: last_given(body, "sourcetype"@),
                source: last_given(body, "source"@),
            },
            disabled: means_off(last_given(body, "disabled"@)),
        }),
    decreases body.len(),
{
    lemma_keys();
    if body.len() > 0 {
        lemma_settings_are_last_given(name, body.drop_last());
    }
}

/// A stanza `[http://...]` binds the token that it gives last to the index, the source type and the
/// source that it gives last, as they are written, unless it is switched off; it leaves the
/// bindings of all other tokens, and without a token it binds nothing.
pub proof fn law_stanzas_bind_what_they_say(
    before: Seq<Seq<char>>,
    header: Seq<char>,
    rest: Seq<char>,
    body: Seq<Seq<char>>,
)
    requires
        text::trimmed(header) == seq!['['] + "http://"@ + rest + seq![']'],
        none_in_brackets(body),
    ensures
        ({
            let bindings = token_binding::bindings_of_lines(before.push(header) + body);
            let earlier = token_binding::bindings_of_lines(before);
            let off = means_off(last_given(body, "disabled"@));
            match last_given(body, "token"@) {
                Some(token) => if off {
                    bindings == earlier
                } else {
                    bindings == earlier.insert(
                        token,
                        BindingView {
                            index: last_given(body, "index"@),
                            sourcetype: last_given(body, "sourcetype"@),
                            source: last_given(body, "source"@),
                        },
                    )
                },
                None => bindings == earlier,
            }
        }),
        token_binding::tokenless_of_lines(before.push(header) + body) == if last_given(
            body,
            "token"@,
        ) is None && !means_off(last_given(body, "disabled"@)) {
            token_binding::tokenless_of_lines(before).push("http://"@ + rest)
        } else {
            token_binding::tokenless_of_lines(before)
        },
{
    let said = text::trimmed(header);
    lemma_bracketed("http://"@ + rest, said);
    assert(("http://"@ + rest).subrange(0, "http://"@.len() as int) =~= "http://"@);
    assert forall|i: int| 0 <= i < body.len() implies !token_binding::is_header(
        text::trimmed(#[trigger] body[i]),
    ) by {
        assert(!in_brackets(body[i]));
    }
    token_binding::law_stanza_binds_its_own_settings(before, header, body);
    lemma_settings_are_last_given("http://"@ + rest, body);
}

proof fn lemma_bracketed(name: Seq<char>, said: Seq<char>)
    requires
        said =~= seq!['['] + name + seq![']'],
    ensures
        token_binding::is_header(said),
        token_binding::section_name(said) == name,
{
    assert(said.subrange(1, said.len() - 1) =~= name);
}

/// After a stanza with the lines `token = t` and `index = i`, and none that says otherwise, the
/// token t is bound to the index i.
pub proof fn law_tokens_are_bound_to_their_index(
    before: Seq<Seq<char>>,
    header: Seq<char>,
    rest: Seq<char>,
    body: Seq<Seq<char>>,
    at_token: int,
    at_index: int,
    token: Seq<char>,
    index: Seq<char>,
)
    requires
        text::trimmed(header) == seq!['['] + "http://"@ + rest + seq![']'],
        none_in_brackets(body),
        0 <= at_token < body.len(),
        line_gives(body[at_token], "token"@) == Some(token),
        forall|j: int|
            at_token < j < body.len() ==> line_gives(#[trigger] body[j], "token"@) is None,
        0 <= at_index < body.len(),
        line_gives(body[at_index], "index"@) == Some(index),
        forall|j: int|
            at_index < j < body.len() ==> line_gives(#[trigger] body[j], "index"@) is None,
        !means_off(last_given(body, "disabled"@)),
    ensures
        ({
            let bindings = token_binding::bindings_of_lines(before.push(header) + body);
            bindings.dom().contains(token) && bindings[token].index == Some(index)
        }),
{
    law_the_last_line_counts(body, at_token, "token"@, token);
    law_the_last_line_counts(body, at_index, "index"@, index);
    law_stanzas_bind_what_they_say(before, header, rest, body);
}

/// A section whose name does not start with `http://` binds nothing, whatever its lines say.
pub proof fn law_sections_of_other_names_bind_nothing(
    before: Seq<Seq<char>>,
    header: Seq<char>,
    name: Seq<char>,
    body: Seq<Seq<char>>,
)
    requires
        text::trimmed(header) == seq!['['] + name + seq![']'],
        forall|rest: Seq<char>| name != #[trigger] ("http://"@ + rest),
        none_in_brackets(body),
    ensures
        token_binding::bindings_of_lines(before.push(header) + body)
            == token_binding::bindings_of_lines(before),
        token_binding::tokenless_of_lines(before.push(header) + body)
            == token_binding::tokenless_of_lines(before),
{
    let said = text::trimmed(header);
    lemma_bracketed(name, said);
    if "http://"@.is_prefix_of(name) {
        let n = "http://"@.len() as int;
        assert(name.subrange(0, n) =~= "http://"@);
        assert(name =~= "http://"@ + name.skip(n));
    }
    assert forall|i: int| 0 <= i < body.len() implies !token_binding::is_header(
        text::trimmed(#[trigger] body[i]),
    ) by {
        assert(!in_brackets(body[i]));
    }
    token_binding::law_other_sections_add_nothing(before, header, body);
}

/// Lines that no section comes before bind nothing.
pub proof fn law_lines_outside_of_sections_bind_nothing(lines: Seq<Seq<char>>)
    requires
        none_in_brackets(lines),
    ensures
        token_binding::bindings_of_lines(lines) == Map::<Seq<char>, BindingView>::empty(),
        token_binding::tokenless_of_lines(lines) == Seq::<Seq<char>>::empty(),
{
    lemma_nothing_is_open(lines);
}

proof fn lemma_nothing_is_open(lines: Seq<Seq<char>>)
    requires
        none_in_brackets(lines),
    ensures
        token_binding::after_lines(lines) == token_binding::after_lines(Seq::empty()),
        token_binding::after_lines(lines).stanza is None,
        token_binding::after_lines(lines).bindings == Map::<Seq<char>, BindingView>::empty(),
        token_binding::after_lines(lines).tokenless == Seq::<Seq<char>>::empty(),
    decreases lines.len(),
{
    if lines.len() > 0 {
        let front = lines.drop_last();
        assert forall|i: int| 0 <= i < front.len() implies !in_brackets(#[trigger] front[i]) by {
            assert(front[i] == lines[i]);
        }
        assert(!in_brackets(lines[lines.len() - 1]));
        lemma_nothing_is_open(front);
    } else {
        assert(lines =~= Seq::empty());
    }
}

/// Inputs.conf is read line by line: lines joined by line feeds bind what the lines bind.
pub proof fn law_contents_are_read_by_lines(lines: Seq<Seq<char>>)
    requires
        lines.len() > 0,
        forall|i: int| 0 <= i < lines.len() ==> !(#[trigger] lines[i]).contains('\n'),
    ensures
        token_binding::conf_bindings(raw_laws::joined(lines, '\n'))
            == token_binding::bindings_of_lines(lines),
        token_binding::conf_tokenless(raw_laws::joined(lines, '\n'))
            == token_binding::tokenless_of_lines(lines),
{
    text_laws::law_splitting_undoes_joining(lines, '\n');
}

/// Bindings show the index, the source type and the source that they hold, token by token, whether
/// they are configured or read.
pub proof fn law_bindings_show_what_they_hold(
    configured: Map<Seq<char>, TokenBindingConfig>,
    read: Map<Seq<char>, TokenBinding>,
    token: Seq<char>,
)
    ensures
        token_binding::config_view(configured).dom() == configured.dom(),
        configured.dom().contains(token) ==> token_binding::config_view(configured)[token] == (
        BindingView {
            index: text::text_of(configured[token].index),
            sourcetype: text::text_of(configured[token].sourcetype),
            source: text::text_of(configured[token].source),
        }),
        token_binding::bindings_view(read).dom() == read.dom(),
        read.dom().contains(token) ==> token_binding::bindings_view(read)[token] == (BindingView {
            index: text::text_of(read[token].index),
            sourcetype: text::text_of(read[token].sourcetype),
            source: text::text_of(read[token].source),
        }),
{
    assert(token_binding::config_view(configured).dom() =~= configured.dom());
    assert(token_binding::bindings_view(read).dom() =~= read.dom());
}

} // verus!
