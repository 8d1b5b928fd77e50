//! The operator console's language: tokenizing command lines, parsing
//! typed parameters, and rendering replies.
//!
//! The TCP line loop itself lives outside; it hands each received line
//! in here and writes the strings these functions hand back.

use vstd::prelude::*;

use crate::a3_modules::A3Module;
use crate::config::{Configuration, Value, ValueView};
use crate::text::{hex_seq, is_space_char, push_hex, radix_value, trim_spec, valid_number};

verus! {

/// A parameter failed its type parse.
#[derive(Debug, Clone, Copy, PartialEq, Eq, Structural)]
pub struct ParseParamError {}

/// An operator reply fragment: the bytes to write back, whether more
/// will follow, and the stream they will follow on.
#[derive(Debug)]
pub struct Response {
    /// The bytes to write to the operator.
    pub reply: Vec<u8>,
    /// Whether more output follows later.
    pub more: bool,
    /// Non-zero when `more` is set: the stream the rest arrives on.
    pub stream_id: u8,
}

// Tokenizing ///////////////////////////////////////////////////////////

/// The tokenizer's running state: finished tokens, the token being
/// built, and the quote character currently open, if any.
pub struct TokState {
    /// Tokens already finished.
    pub tokens: Seq<Seq<char>>,
    /// The token being built.
    pub current: Seq<char>,
    /// The quote character currently open.
    pub in_quotes: Option<char>,
}

/// One tokenizer step: quotes toggle quoting, blanks outside quotes end
/// the current token, and everything else extends it.
pub open spec fn tok_step(st: TokState, c: char) -> TokState {
    if c == '\'' || c == '"' {
        if st.in_quotes == Some(c) {
            TokState { in_quotes: None, ..st }
        } else if st.in_quotes is None {
            TokState { in_quotes: Some(c), ..st }
        } else {
            TokState { current: st.current.push(c), ..st }
        }
    } else if is_space_char(c) && st.in_quotes is None {
        if st.current.len() > 0 {
            TokState { tokens: st.tokens.push(st.current), current: Seq::empty(), ..st }
        } else {
            st
        }
    } else {
        TokState { current: st.current.push(c), ..st }
    }
}

/// The tokenizer run over a whole line.
pub open spec fn tok_run(s: Seq<char>) -> TokState
    decreases s.len(),
{
    if s.len() == 0 {
        TokState { tokens: Seq::empty(), current: Seq::empty(), in_quotes: None }
    } else {
        tok_step(tok_run(s.drop_last()), s.last())
    }
}

/// The tokens of a command line: quote-aware fields split on blanks,
/// with a trailing unfinished token kept.
pub open spec fn tokenize_spec(s: Seq<char>) -> Seq<Seq<char>> {
    let st = tok_run(s);
    if st.current.len() > 0 {
        st.tokens.push(st.current)
    } else {
        st.tokens
    }
}

/// Splits a command line into whitespace-separated tokens, with single
/// or double quotes protecting embedded blanks.
pub fn tokenize(input: &str) -> (r: Vec<String>)
    ensures
        r.deep_view() == tokenize_spec(input@),
{
    let n = input.unicode_len();
    let mut tokens: Vec<String> = Vec::new();
    let mut current = String::new();
    let mut in_quotes: Option<char> = None;
    let mut i: usize = 0;
    proof {
        assert(input@.take(0) =~= Seq::<char>::empty());
        assert(tokens.deep_view() =~= Seq::<Seq<char>>::empty());
    }
    while i < n
        invariant
            i <= n,
            n == input@.len(),
            tokens.deep_view() == tok_run(input@.take(i as int)).tokens,
            current@ == tok_run(input@.take(i as int)).current,
            in_quotes == tok_run(input@.take(i as int)).in_quotes,
        decreases n - i,
    {
        let c = input.get_char(i);
        proof {
            assert(input@.take(i as int + 1).drop_last() =~= input@.take(i as int));
            assert(input@.take(i as int + 1).last() == input@[i as int]);
        }
        if c == '\'' || c == '"' {
            let same = match in_quotes {
                Some(q) => q == c,
                None => false,
            };
            if same {
                in_quotes = None;
            } else if in_quotes.is_none() {
                in_quotes = Some(c);
            } else {
                crate::text::push_char(&mut current, c);
            }
        } else if (c == ' ' || c == '\t' || c == '\r' || c == '\n') && in_quotes.is_none() {
            if current.unicode_len() > 0 {
                tokens.push(current);
                current = String::new();
                proof {
                    assert(tokens.deep_view() =~= tok_run(input@.take(i as int + 1)).tokens);
                }
            }
        } else {
            crate::text::push_char(&mut current, c);
        }
        i = i + 1;
    }
    proof {
        assert(input@.take(n as int) =~= input@);
    }
    if current.unicode_len() > 0 {
        tokens.push(current);
        proof {
            assert(tokens.deep_view() =~= tokenize_spec(input@));
        }
    }
    proof {
        assert(tokens.deep_view() =~= tokenize_spec(input@));
    }
    tokens
}

// Parameter specs //////////////////////////////////////////////////////

/// The type a console parameter is parsed as.
#[derive(Debug, Clone, Copy, PartialEq, Eq, Structural)]
pub enum ParamKind {
    /// An 8-bit number, decimal or `0x`-prefixed hexadecimal.
    U8,
    /// A 16-bit number.
    U16,
    /// A 32-bit number.
    U32,
    /// Free text, trimmed.
    Str,
    /// `true` or `false`.
    Bool,
}

/// The number a trimmed token denotes: `0x`-prefixed tokens parse as
/// hexadecimal, the rest as decimal; `None` for anything malformed or
/// beyond 32 bits.
pub open spec fn number_token_spec(s: Seq<char>) -> Option<nat> {
    let t = trim_spec(s);
    if t.len() >= 2 && t[0] == '0' && t[1] == 'x' {
        let digits = t.skip(2);
        if valid_number(digits, 16) && radix_value(digits, 16) <= u32::MAX {
            Some(radix_value(digits, 16))
        } else {
            None
        }
    } else {
        if valid_number(t, 10) && radix_value(t, 10) <= u32::MAX {
            Some(radix_value(t, 10))
        } else {
            None
        }
    }
}

/// What one token parses to under a parameter kind.
pub open spec fn param_parse(kind: ParamKind, s: Seq<char>) -> Option<ValueView> {
    match kind {
        ParamKind::U8 => match number_token_spec(s) {
            Some(v) => if v <= 255 {
                Some(ValueView::U8(v as u8))
            } else {
                None
            },
            None => None,
        },
        ParamKind::U16 => match number_token_spec(s) {
            Some(v) => if v <= 65535 {
                Some(ValueView::U16(v as u16))
            } else {
                None
            },
            None => None,
        },
        ParamKind::U32 => match number_token_spec(s) {
            Some(v) => Some(ValueView::U32(v as u32)),
            None => None,
        },
        ParamKind::Str => Some(ValueView::Text(trim_spec(s))),
        ParamKind::Bool => if trim_spec(s) == "true"@ {
            Some(ValueView::Boolean(true))
        } else if trim_spec(s) == "false"@ {
            Some(ValueView::Boolean(false))
        } else {
            None
        },
    }
}

/// One console parameter: its display name, whether the command insists
/// on it, and how it parses.
#[derive(Debug)]
pub struct Spec {
    /// The parameter's name, as usage lines show it.
    pub name: String,
    /// Whether the parameter must be present.
    pub required: bool,
    /// How the parameter parses.
    pub kind: ParamKind,
}

impl Spec {
    /// An 8-bit numeric parameter.
    pub fn u8(name: &str, required: bool) -> (r: Self)
        ensures
            r.name@ == name@,
            r.required == required,
            r.kind == ParamKind::U8,
    {
        Spec { name: name.to_owned(), required, kind: ParamKind::U8 }
    }

    /// A 16-bit numeric parameter.
    pub fn u16(name: &str, required: bool) -> (r: Self)
        ensures
            r.name@ == name@,
            r.required == required,
            r.kind == ParamKind::U16,
    {
        Spec { name: name.to_owned(), required, kind: ParamKind::U16 }
    }

    /// A 32-bit numeric parameter.
    pub fn u32(name: &str, required: bool) -> (r: Self)
        ensures
            r.name@ == name@,
            r.required == required,
            r.kind == ParamKind::U32,
    {
        Spec { name: name.to_owned(), required, kind: ParamKind::U32 }
    }

    /// A free-text parameter.
    pub fn str(name: &str, required: bool) -> (r: Self)
        ensures
            r.name@ == name@,
            r.required == required,
            r.kind == ParamKind::Str,
    {
        Spec { name: name.to_owned(), required, kind: ParamKind::Str }
    }

    /// A boolean parameter.
    pub fn bool(name: &str, required: bool) -> (r: Self)
        ensures
            r.name@ == name@,
            r.required == required,
            r.kind == ParamKind::Bool,
    {
        Spec { name: name.to_owned(), required, kind: ParamKind::Bool }
    }

    /// Parses one token under this parameter's kind.
    pub fn parse(&self, src: &String) -> (r: Result<Value, ParseParamError>)
        ensures
            match param_parse(self.kind, src@) {
                Some(v) => r is Ok && r->Ok_0@ == v,
                None => r is Err,
            },
    {
        match self.kind {
            ParamKind::U8 => {
                match crate::text::parse_number_token(src.as_str()) {
                    Some(v) => if v <= 255 {
                        Ok(Value::U8(v as u8))
                    } else {
                        Err(ParseParamError {})
                    },
                    None => Err(ParseParamError {}),
                }
            },
            ParamKind::U16 => {
                match crate::text::parse_number_token(src.as_str()) {
                    Some(v) => if v <= 65535 {
                        Ok(Value::U16(v as u16))
                    } else {
                        Err(ParseParamError {})
                    },
                    None => Err(ParseParamError {}),
                }
            },
            ParamKind::U32 => {
                match crate::text::parse_number_token(src.as_str()) {
                    Some(v) => Ok(Value::U32(v)),
                    None => Err(ParseParamError {}),
                }
            },
            ParamKind::Str => Ok(Value::Text(crate::text::trim(src.as_str()))),
            ParamKind::Bool => {
                let t = crate::text::trim(src.as_str());
                if t.eq(&String::from_str("true")) {
                    Ok(Value::Boolean(true))
                } else if t.eq(&String::from_str("false")) {
                    Ok(Value::Boolean(false))
                } else {
                    Err(ParseParamError {})
                }
            },
        }
    }
}

// Parameter list parsing ///////////////////////////////////////////////

/// How a command's parameter list comes out.
#[derive(Debug)]
pub enum ParamsOutcome {
    /// Every present parameter parsed.
    Params {
        /// The parsed values, in declaration order.
        values: Vec<Value>,
    },
    /// A required parameter was missing: show the usage line.
    Usage,
    /// A parameter failed its parse: name it to the operator.
    Invalid {
        /// The failing parameter's name.
        name: String,
    },
}

/// The value of a parameter list: walking the specs from position `i`
/// with `acc` already parsed.  Token 0 is the command word itself.
pub enum ParamsOutcomeView {
    /// Every present parameter parsed.
    Params { values: Seq<ValueView> },
    /// A required parameter was missing.
    Usage,
    /// A parameter failed its parse.
    Invalid { name: Seq<char> },
}

/// The parameter-list parse, position by position.
pub open spec fn parse_params_from(
    tokens: Seq<Seq<char>>,
    kinds: Seq<(ParamKind, bool, Seq<char>)>,
    i: nat,
    acc: Seq<ValueView>,
) -> ParamsOutcomeView
    decreases kinds.len() - i,
{
    if i >= kinds.len() {
        ParamsOutcomeView::Params { values: acc }
    } else if tokens.len() <= i + 1 {
        if kinds[i as int].1 {
            ParamsOutcomeView::Usage
        } else {
            ParamsOutcomeView::Params { values: acc }
        }
    } else {
        match param_parse(kinds[i as int].0, tokens[i as int + 1]) {
            Some(v) => parse_params_from(tokens, kinds, i + 1, acc.push(v)),
            None => ParamsOutcomeView::Invalid { name: kinds[i as int].2 },
        }
    }
}

/// A spec list by mathematical value: kind, required, name.
pub open spec fn spec_views(specs: Seq<Spec>) -> Seq<(ParamKind, bool, Seq<char>)> {
    specs.map_values(|s: Spec| (s.kind, s.required, s.name@))
}

/// What a parameter list parses to under the outcome view.
pub open spec fn outcome_view(o: ParamsOutcome) -> ParamsOutcomeView {
    match o {
        ParamsOutcome::Params { values } => ParamsOutcomeView::Params {
            values: values@.map_values(|v: Value| v@),
        },
        ParamsOutcome::Usage => ParamsOutcomeView::Usage,
        ParamsOutcome::Invalid { name } => ParamsOutcomeView::Invalid { name: name@ },
    }
}

/// Parses a command's parameters against its specs.  Token 0 is the
/// command word; a missing required parameter asks for the usage line,
/// a malformed one names itself, and optional parameters may simply end
/// the list.
pub fn parse_params(tokens: &Vec<String>, specs: &Vec<Spec>) -> (r: ParamsOutcome)
    ensures
        outcome_view(r) == parse_params_from(
            tokens.deep_view(),
            spec_views(specs@),
            0,
            Seq::<ValueView>::empty(),
        ),
{
    let ghost toks = tokens.deep_view();
    let ghost kinds = spec_views(specs@);
    let mut params: Vec<Value> = Vec::new();
    let mut i: usize = 0;
    proof {
        assert(params@.map_values(|v: Value| v@) =~= Seq::<ValueView>::empty());
    }
    while i < specs.len()
        invariant
            i <= specs@.len(),
            toks == tokens.deep_view(),
            kinds == spec_views(specs@),
            kinds.len() == specs@.len(),
            toks.len() == tokens@.len(),
            parse_params_from(toks, kinds, 0, Seq::<ValueView>::empty())
                == parse_params_from(toks, kinds, i as nat, params@.map_values(|v: Value| v@)),
        decreases specs@.len() - i,
    {
        if tokens.len() <= i + 1 {
            if specs[i].required {
                return ParamsOutcome::Usage;
            }
            return ParamsOutcome::Params { values: params };
        }
        match specs[i].parse(&tokens[i + 1]) {
            Ok(param) => {
                let ghost before = params@.map_values(|v: Value| v@);
                let ghost pv = param@;
                params.push(param);
                proof {
                    assert(params@.map_values(|v: Value| v@) =~= before.push(pv));
                    assert(toks[i as int + 1] == tokens@[i as int + 1]@);
                }
            },
            Err(_) => {
                let name = specs[i].name.clone();
                return ParamsOutcome::Invalid { name };
            },
        }
        i = i + 1;
    }
    ParamsOutcome::Params { values: params }
}

/// The usage line's parameter list: required parameters in angle
/// brackets, optional ones in square brackets.
pub open spec fn usage_items(specs: Seq<(ParamKind, bool, Seq<char>)>) -> Seq<char>
    decreases specs.len(),
{
    if specs.len() == 0 {
        Seq::empty()
    } else {
        usage_items(specs.drop_last()) + (if specs.last().1 {
            " <"@ + specs.last().2 + ">"@
        } else {
            " ["@ + specs.last().2 + "]"@
        })
    }
}

/// The whole usage line a command prints when a required parameter is
/// missing.
pub open spec fn usage_spec(command: Seq<char>, specs: Seq<(ParamKind, bool, Seq<char>)>)
    -> Seq<char> {
    "Usage "@ + command + usage_items(specs) + "\r\n"@
}

/// Renders a command's usage line.
pub fn format_usage(command: &str, specs: &Vec<Spec>) -> (r: String)
    ensures
        r@ == usage_spec(command@, spec_views(specs@)),
{
    let ghost views = spec_views(specs@);
    let mut out = String::from_str("Usage ");
    out.append(command);
    let mut i: usize = 0;
    proof {
        assert(views.take(0) =~= Seq::<(ParamKind, bool, Seq<char>)>::empty());
        assert(out@ =~= "Usage "@ + command@ + usage_items(views.take(0)));
    }
    while i < specs.len()
        invariant
            i <= specs@.len(),
            views == spec_views(specs@),
            views.len() == specs@.len(),
            out@ == "Usage "@ + command@ + usage_items(views.take(i as int)),
        decreases specs@.len() - i,
    {
        proof {
            assert(views.take(i as int + 1).drop_last() =~= views.take(i as int));
            assert(views.take(i as int + 1).last() == views[i as int]);
        }
        if specs[i].required {
            out.append(" <");
            out.append(specs[i].name.as_str());
            out.append(">");
        } else {
            out.append(" [");
            out.append(specs[i].name.as_str());
            out.append("]");
        }
        proof {
            assert(out@ =~= "Usage "@ + command@ + usage_items(views.take(i as int + 1)));
        }
        i = i + 1;
    }
    proof {
        assert(views.take(views.len() as int) =~= views);
    }
    out.append("\r\n");
    out
}

// Reply rendering //////////////////////////////////////////////////////

/// The view of an optional string field in a listing.
pub open spec fn opt_field(prefix: Seq<char>, v: Option<Seq<char>>) -> Seq<char> {
    match v {
        Some(s) => prefix + s,
        None => Seq::empty(),
    }
}

/// One line of the module listing: the uid in eight hex digits, the id
/// in two, then the cached type and name when they are known.
pub open spec fn module_line_spec(m: crate::a3_modules::A3ModuleView) -> Seq<char> {
    "uid="@ + hex_seq(m.uid as nat, 8) + " id="@ + hex_seq(m.id as nat, 2) + opt_field(
        " type="@,
        m.module_type,
    ) + opt_field(" name="@, m.name)
}

/// Renders one module for the `list` command.
pub fn format_module_line(m: &A3Module) -> (r: String)
    ensures
        r@ == module_line_spec(m@),
{
    let mut out = String::from_str("uid=");
    push_hex(&mut out, m.uid, 8);
    out.append(" id=");
    push_hex(&mut out, m.id as u32, 2);
    match &m.module_type {
        Some(t) => {
            out.append(" type=");
            out.append(t.as_str());
        },
        None => {},
    }
    match &m.name {
        Some(n) => {
            out.append(" name=");
            out.append(n.as_str());
        },
        None => {},
    }
    proof {
        assert(out@ =~= module_line_spec(m@));
    }
    out
}

/// A run of `n` blanks.
pub open spec fn spaces(n: nat) -> Seq<char>
    decreases n,
{
    if n == 0 {
        Seq::empty()
    } else {
        spaces((n - 1) as nat).push(' ')
    }
}

/// The display name of a property under a definition map, with the
/// fixed fallback for unknown ids.
pub open spec fn prop_name_of(
    defs: Map<u8, crate::schema::PropertyDefView>,
    p: crate::config::PropertyView,
) -> Seq<char> {
    if defs.contains_key(p.id) {
        defs[p.id].name
    } else {
        "unknown property"@
    }
}

/// The length of the longest property name in a configuration.
pub open spec fn longest_name(
    defs: Map<u8, crate::schema::PropertyDefView>,
    props: Seq<crate::config::PropertyView>,
) -> nat
    decreases props.len(),
{
    if props.len() == 0 {
        0
    } else {
        let rest = longest_name(defs, props.drop_last());
        let this = prop_name_of(defs, props.last()).len();
        if this > rest {
            this
        } else {
            rest
        }
    }
}

/// One line of the configuration report: the name padded to the longest
/// one, a separator, and the rendered value.
pub open spec fn config_line(
    defs: Map<u8, crate::schema::PropertyDefView>,
    p: crate::config::PropertyView,
    longest: nat,
) -> Seq<char> {
    let name = prop_name_of(defs, p);
    let pad = if name.len() < longest {
        (longest - name.len()) as nat
    } else {
        0
    };
    "  "@ + name + spaces(pad) + " : "@ + crate::config::prop_rendering(defs, p)
}

/// The report's lines, each opened by a line break.
pub open spec fn report_lines(
    defs: Map<u8, crate::schema::PropertyDefView>,
    props: Seq<crate::config::PropertyView>,
    longest: nat,
) -> Seq<char>
    decreases props.len(),
{
    if props.len() == 0 {
        Seq::empty()
    } else {
        report_lines(defs, props.drop_last(), longest) + "\r\n"@ + config_line(
            defs,
            props.last(),
            longest,
        )
    }
}

/// The whole configuration report: an empty line, one aligned
/// `name : value` line per property, and an empty line.
pub open spec fn config_report_spec(c: crate::config::Configuration) -> Seq<char> {
    report_lines(c.defs(), c.props(), longest_name(c.defs(), c.props())) + "\r\n"@
}

/// Renders a pulled configuration for the operator: each property's
/// name, padded so the separators align, and its value.
pub fn format_config_report(config: &Configuration) -> (r: String)
    requires
        config.wf(),
    ensures
        r@ == config_report_spec(*config),
{
    let ghost defs = config.defs();
    let ghost props = config.props();
    let n = config.len();
    let mut longest: usize = 0;
    let mut i: usize = 0;
    while i < n
        invariant
            i <= n,
            n == props.len(),
            defs == config.defs(),
            props == config.props(),
            config.wf(),
            longest == longest_name(defs, props.take(i as int)),
            longest <= usize::MAX,
        decreases n - i,
    {
        let name = config.prop_name(i);
        let len = name.as_str().unicode_len();
        proof {
            assert(props.take(i as int + 1).drop_last() =~= props.take(i as int));
            assert(props.take(i as int + 1).last() == props[i as int]);
        }
        if len > longest {
            longest = len;
        }
        i = i + 1;
    }
    proof {
        assert(props.take(n as int) =~= props);
    }
    let mut out = String::new();
    let mut i: usize = 0;
    while i < n
        invariant
            i <= n,
            n == props.len(),
            defs == config.defs(),
            props == config.props(),
            config.wf(),
            longest == longest_name(defs, props),
            out@ == report_lines(defs, props.take(i as int), longest as nat),
        decreases n - i,
    {
        proof {
            assert(props.take(i as int + 1).drop_last() =~= props.take(i as int));
            assert(props.take(i as int + 1).last() == props[i as int]);
        }
        out.append("\r\n");
        out.append("  ");
        let name = config.prop_name(i);
        let name_len = name.as_str().unicode_len();
        out.append(name.as_str());
        let pad = if name_len < longest {
            longest - name_len
        } else {
            0
        };
        let ghost out_before_pad = out@;
        let mut k: usize = 0;
        while k < pad
            invariant
                k <= pad,
                out@ == out_before_pad + spaces(k as nat),
            decreases pad - k,
        {
            crate::text::push_char(&mut out, ' ');
            k = k + 1;
            proof {
                assert(out@ =~= out_before_pad + spaces(k as nat));
            }
        }
        out.append(" : ");
        let value = config.prop_value_as_string(i);
        out.append(value.as_str());
        proof {
            assert(out@ =~= report_lines(defs, props.take(i as int + 1), longest as nat));
        }
        i = i + 1;
    }
    proof {
        assert(props.take(n as int) =~= props);
    }
    out.append("\r\n");
    out
}

} // verus!
