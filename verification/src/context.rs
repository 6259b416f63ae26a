//! Evaluation contexts: the request-side data conditions are evaluated
//! against, with dotted-path field lookup.

use vstd::prelude::*;
use crate::outside::chars_of;
use crate::strutil::chars_eq;
use crate::value::{ConditionValue, ValueView, value_views, lemma_value_views};
use crate::alist::{alist_lookup, alist_set, alist_upsert, alist_get};
use crate::json::{JsonNode, NodeView};

verus! {

/// LLM-specific context.
#[derive(Debug)]
pub struct LlmContext {
    /// LLM provider (e.g., "openai", "anthropic")
    pub provider: Option<String>,
    /// Model identifier (e.g., "gpt-4")
    pub model: Option<String>,
    /// The prompt being sent
    pub prompt: Option<String>,
    /// Maximum tokens for the response
    pub max_tokens: Option<u32>,
    /// Temperature setting, in millionths
    pub temperature: Option<i64>,
    /// Function definitions (for function calling)
    pub functions: Option<Vec<ConditionValue>>,
}

/// The mathematical shape of an [`LlmContext`].
#[verifier::ext_equal]
pub struct LlmView {
    /// LLM provider
    pub provider: Option<Seq<char>>,
    /// Model identifier
    pub model: Option<Seq<char>>,
    /// The prompt being sent
    pub prompt: Option<Seq<char>>,
    /// Maximum tokens for the response
    pub max_tokens: Option<u32>,
    /// Temperature setting, in millionths
    pub temperature: Option<int>,
    /// Function definitions
    pub functions: Option<Seq<ValueView>>,
}

impl DeepView for LlmContext {
    type V = LlmView;

    open spec fn deep_view(&self) -> LlmView {
        LlmView {
            provider: match &self.provider {
                Some(s) => Some(s@),
                None => None,
            },
            model: match &self.model {
                Some(s) => Some(s@),
                None => None,
            },
            prompt: match &self.prompt {
                Some(s) => Some(s@),
                None => None,
            },
            max_tokens: self.max_tokens,
            temperature: match self.temperature {
                Some(t) => Some(t as int),
                None => None,
            },
            functions: match &self.functions {
                Some(v) => Some(v.deep_view()),
                None => None,
            },
        }
    }
}

impl Default for LlmContext {
    fn default() -> (r: Self)
        ensures
            r.deep_view() == (LlmView {
                provider: None,
                model: None,
                prompt: None,
                max_tokens: None,
                temperature: None,
                functions: None,
            }),
    {
        LlmContext {
            provider: None,
            model: None,
            prompt: None,
            max_tokens: None,
            temperature: None,
            functions: None,
        }
    }
}

/// User context.
#[derive(Debug)]
pub struct UserContext {
    /// User identifier
    pub id: String,
    /// User email
    pub email: Option<String>,
    /// User roles
    pub roles: Vec<String>,
    /// User permissions
    pub permissions: Vec<String>,
}

/// The mathematical shape of a [`UserContext`].
#[verifier::ext_equal]
pub struct UserView {
    /// User identifier
    pub id: Seq<char>,
    /// User email
    pub email: Option<Seq<char>>,
    /// User roles
    pub roles: Seq<Seq<char>>,
    /// User permissions
    pub permissions: Seq<Seq<char>>,
}

impl DeepView for UserContext {
    type V = UserView;

    open spec fn deep_view(&self) -> UserView {
        UserView {
            id: self.id@,
            email: match &self.email {
                Some(s) => Some(s@),
                None => None,
            },
            roles: self.roles.deep_view(),
            permissions: self.permissions.deep_view(),
        }
    }
}

/// Team context.
#[derive(Debug)]
pub struct TeamContext {
    /// Team identifier
    pub id: String,
    /// Team name
    pub name: Option<String>,
    /// Team tier (e.g., "free", "premium", "enterprise")
    pub tier: Option<String>,
}

/// The mathematical shape of a [`TeamContext`].
#[verifier::ext_equal]
pub struct TeamView {
    /// Team identifier
    pub id: Seq<char>,
    /// Team name
    pub name: Option<Seq<char>>,
    /// Team tier
    pub tier: Option<Seq<char>>,
}

impl DeepView for TeamContext {
    type V = TeamView;

    open spec fn deep_view(&self) -> TeamView {
        TeamView {
            id: self.id@,
            name: match &self.name {
                Some(s) => Some(s@),
                None => None,
            },
            tier: match &self.tier {
                Some(s) => Some(s@),
                None => None,
            },
        }
    }
}

/// Project context.
#[derive(Debug)]
pub struct ProjectContext {
    /// Project identifier
    pub id: String,
    /// Project name
    pub name: Option<String>,
    /// Environment (e.g., "production", "staging", "development")
    pub environment: Option<String>,
}

/// The mathematical shape of a [`ProjectContext`].
#[verifier::ext_equal]
pub struct ProjectView {
    /// Project identifier
    pub id: Seq<char>,
    /// Project name
    pub name: Option<Seq<char>>,
    /// Environment
    pub environment: Option<Seq<char>>,
}

impl DeepView for ProjectContext {
    type V = ProjectView;

    open spec fn deep_view(&self) -> ProjectView {
        ProjectView {
            id: self.id@,
            name: match &self.name {
                Some(s) => Some(s@),
                None => None,
            },
            environment: match &self.environment {
                Some(s) => Some(s@),
                None => None,
            },
        }
    }
}

/// Request context.
#[derive(Debug)]
pub struct RequestContext {
    /// Request identifier
    pub id: String,
    /// Request timestamp (Unix timestamp, seconds)
    pub timestamp: Option<i64>,
    /// Client IP address
    pub ip_address: Option<String>,
    /// Client user agent
    pub user_agent: Option<String>,
}

/// The mathematical shape of a [`RequestContext`].
#[verifier::ext_equal]
pub struct RequestView {
    /// Request identifier
    pub id: Seq<char>,
    /// Request timestamp
    pub timestamp: Option<int>,
    /// Client IP address
    pub ip_address: Option<Seq<char>>,
    /// Client user agent
    pub user_agent: Option<Seq<char>>,
}

impl DeepView for RequestContext {
    type V = RequestView;

    open spec fn deep_view(&self) -> RequestView {
        RequestView {
            id: self.id@,
            timestamp: match self.timestamp {
                Some(t) => Some(t as int),
                None => None,
            },
            ip_address: match &self.ip_address {
                Some(s) => Some(s@),
                None => None,
            },
            user_agent: match &self.user_agent {
                Some(s) => Some(s@),
                None => None,
            },
        }
    }
}

/// Context provided for policy evaluation.
#[derive(Debug)]
pub struct EvaluationContext {
    /// LLM-specific context (provider, model, prompt, etc.)
    pub llm: Option<LlmContext>,
    /// User context (id, roles, permissions)
    pub user: Option<UserContext>,
    /// Team context
    pub team: Option<TeamContext>,
    /// Project context
    pub project: Option<ProjectContext>,
    /// Request context (IP, user agent, timestamp)
    pub request: Option<RequestContext>,
    /// Additional metadata
    pub metadata: Vec<(String, ConditionValue)>,
}

/// The mathematical shape of an [`EvaluationContext`].
#[verifier::ext_equal]
pub struct CtxView {
    /// LLM-specific context
    pub llm: Option<LlmView>,
    /// User context
    pub user: Option<UserView>,
    /// Team context
    pub team: Option<TeamView>,
    /// Project context
    pub project: Option<ProjectView>,
    /// Request context
    pub request: Option<RequestView>,
    /// Additional metadata
    pub metadata: Seq<(Seq<char>, ValueView)>,
}

impl DeepView for EvaluationContext {
    type V = CtxView;

    open spec fn deep_view(&self) -> CtxView {
        CtxView {
            llm: match &self.llm {
                Some(l) => Some(l.deep_view()),
                None => None,
            },
            user: match &self.user {
                Some(u) => Some(u.deep_view()),
                None => None,
            },
            team: match &self.team {
                Some(t) => Some(t.deep_view()),
                None => None,
            },
            project: match &self.project {
                Some(p) => Some(p.deep_view()),
                None => None,
            },
            request: match &self.request {
                Some(q) => Some(q.deep_view()),
                None => None,
            },
            metadata: self.metadata.deep_view(),
        }
    }
}

impl View for EvaluationContext {
    type V = CtxView;

    open spec fn view(&self) -> CtxView {
        self.deep_view()
    }
}

/// The index of the first `sep` in `s`, or the length when none occurs.
pub open spec fn spec_find_char(s: Seq<char>, sep: char) -> int
    decreases s.len(),
{
    if s.len() == 0 {
        0
    } else if s[0] == sep {
        0
    } else {
        1 + spec_find_char(s.subrange(1, s.len() as int), sep)
    }
}

/// `spec_find_char` stays within bounds, the prefix before it is clean of the
/// separator, and it points at a separator when in bounds.
pub proof fn lemma_find_char(s: Seq<char>, sep: char)
    ensures
        0 <= spec_find_char(s, sep) <= s.len(),
        forall|j: int| 0 <= j < spec_find_char(s, sep) ==> s[j] != sep,
        spec_find_char(s, sep) < s.len() ==> s[spec_find_char(s, sep)] == sep,
    decreases s.len(),
{
    if s.len() > 0 && s[0] != sep {
        let rest = s.subrange(1, s.len() as int);
        lemma_find_char(rest, sep);
        assert forall|j: int| 0 <= j < spec_find_char(s, sep) implies s[j] != sep by {
            if j > 0 {
                assert(rest[j - 1] == s[j]);
            }
        }
    }
}

/// Split `s` at every occurrence of `sep`; the result always has at least one
/// (possibly empty) segment.
pub open spec fn spec_split(s: Seq<char>, sep: char) -> Seq<Seq<char>>
    decreases s.len(),
{
    let i = spec_find_char(s, sep);
    if i == s.len() {
        seq![s]
    } else {
        proof {
            lemma_find_char(s, sep);
        }
        seq![s.subrange(0, i)] + spec_split(s.subrange(i + 1, s.len() as int), sep)
    }
}

/// Copy the characters of `s` between `from` and `to`.
pub fn chars_range(s: &Vec<char>, from: usize, to: usize) -> (r: Vec<char>)
    requires
        from <= to <= s@.len(),
    ensures
        r@ == s@.subrange(from as int, to as int),
{
    let mut out: Vec<char> = Vec::new();
    let mut i: usize = from;
    while i < to
        invariant
            from <= i <= to,
            out@ =~= s@.subrange(from as int, i as int),
        decreases to - i,
    {
        out.push(s[i]);
        proof {
            assert(out@ =~= s@.subrange(from as int, i + 1 as int));
        }
        i = i + 1;
    }
    out
}

/// Find the first `sep` at or after `from`, or the length when none occurs.
fn find_char_from(s: &Vec<char>, sep: char, from: usize) -> (r: usize)
    requires
        from <= s@.len(),
    ensures
        from + spec_find_char(s@.subrange(from as int, s@.len() as int), sep) == r as int,
        r <= s@.len(),
{
    let mut i: usize = from;
    while i < s.len()
        invariant
            from <= i <= s@.len(),
            forall|j: int| from as int <= j < i as int ==> s@[j] != sep,
        decreases s@.len() - i,
    {
        if s[i] == sep {
            proof {
                lemma_find_skip(s@.subrange(from as int, s@.len() as int), sep, i - from);
            }
            return i;
        }
        i = i + 1;
    }
    proof {
        lemma_find_skip(s@.subrange(from as int, s@.len() as int), sep, s@.len() - from as int);
    }
    s.len()
}

/// When the first `n` characters are clean of the separator and either the
/// sequence ends or a separator follows, the find lands at `n`.
proof fn lemma_find_skip(s: Seq<char>, sep: char, n: int)
    requires
        0 <= n <= s.len(),
        forall|j: int| 0 <= j < n ==> s[j] != sep,
        n < s.len() ==> s[n] == sep,
    ensures
        spec_find_char(s, sep) == n,
    decreases n,
{
    if n == 0 {
        if s.len() > 0 {
        }
    } else {
        let rest = s.subrange(1, s.len() as int);
        assert forall|j: int| 0 <= j < n - 1 implies rest[j] != sep by {
            assert(rest[j] == s[j + 1]);
        }
        assert(n - 1 < rest.len() ==> rest[n - 1] == s[n]);
        lemma_find_skip(rest, sep, n - 1);
    }
}

/// The value of an LLM-context field by its name, accepting both camelCase and
/// snake_case for compound names.
pub open spec fn spec_llm_field(l: LlmView, f: Seq<char>) -> Option<ValueView> {
    if f == "provider"@ {
        match l.provider {
            Some(s) => Some(ValueView::Str(s)),
            None => None,
        }
    } else if f == "model"@ {
        match l.model {
            Some(s) => Some(ValueView::Str(s)),
            None => None,
        }
    } else if f == "prompt"@ {
        match l.prompt {
            Some(s) => Some(ValueView::Str(s)),
            None => None,
        }
    } else if f == "maxTokens"@ || f == "max_tokens"@ {
        match l.max_tokens {
            Some(n) => Some(ValueView::Int(n as int)),
            None => None,
        }
    } else if f == "temperature"@ {
        match l.temperature {
            Some(t) => Some(ValueView::Flt(t)),
            None => None,
        }
    } else {
        None
    }
}

/// The value of a user-context field by its name.
pub open spec fn spec_user_field(u: UserView, f: Seq<char>) -> Option<ValueView> {
    if f == "id"@ {
        Some(ValueView::Str(u.id))
    } else if f == "email"@ {
        match u.email {
            Some(s) => Some(ValueView::Str(s)),
            None => None,
        }
    } else if f == "roles"@ {
        Some(ValueView::Arr(spec_string_values(u.roles)))
    } else if f == "permissions"@ {
        Some(ValueView::Arr(spec_string_values(u.permissions)))
    } else {
        None
    }
}

/// The value of a team-context field by its name.
pub open spec fn spec_team_field(t: TeamView, f: Seq<char>) -> Option<ValueView> {
    if f == "id"@ {
        Some(ValueView::Str(t.id))
    } else if f == "name"@ {
        match t.name {
            Some(s) => Some(ValueView::Str(s)),
            None => None,
        }
    } else if f == "tier"@ {
        match t.tier {
            Some(s) => Some(ValueView::Str(s)),
            None => None,
        }
    } else {
        None
    }
}

/// The value of a project-context field by its name.
pub open spec fn spec_project_field(p: ProjectView, f: Seq<char>) -> Option<ValueView> {
    if f == "id"@ {
        Some(ValueView::Str(p.id))
    } else if f == "name"@ {
        match p.name {
            Some(s) => Some(ValueView::Str(s)),
            None => None,
        }
    } else if f == "environment"@ {
        match p.environment {
            Some(s) => Some(ValueView::Str(s)),
            None => None,
        }
    } else {
        None
    }
}

/// The value of a request-context field by its name, accepting both camelCase
/// and snake_case for compound names.
pub open spec fn spec_request_field(q: RequestView, f: Seq<char>) -> Option<ValueView> {
    if f == "id"@ {
        Some(ValueView::Str(q.id))
    } else if f == "timestamp"@ {
        match q.timestamp {
            Some(t) => Some(ValueView::Int(t)),
            None => None,
        }
    } else if f == "ipAddress"@ || f == "ip_address"@ {
        match q.ip_address {
            Some(s) => Some(ValueView::Str(s)),
            None => None,
        }
    } else if f == "userAgent"@ || f == "user_agent"@ {
        match q.user_agent {
            Some(s) => Some(ValueView::Str(s)),
            None => None,
        }
    } else {
        None
    }
}

/// A sequence of strings as a sequence of string values.
pub open spec fn spec_string_values(ss: Seq<Seq<char>>) -> Seq<ValueView> {
    Seq::new(ss.len(), |i: int| ValueView::Str(ss[i]))
}

/// The value a context holds at a dotted path: the first segment picks the
/// sub-record (or the metadata map), the second the field (or metadata key);
/// any further segments are ignored. Absent sub-records, unknown fields and
/// empty paths yield nothing.
pub open spec fn spec_ctx_get(c: CtxView, path: Seq<char>) -> Option<ValueView> {
    let parts = spec_split(path, '.');
    if parts.len() < 2 {
        None
    } else if parts[0] == "llm"@ {
        match c.llm {
            Some(l) => spec_llm_field(l, parts[1]),
            None => None,
        }
    } else if parts[0] == "user"@ {
        match c.user {
            Some(u) => spec_user_field(u, parts[1]),
            None => None,
        }
    } else if parts[0] == "team"@ {
        match c.team {
            Some(t) => spec_team_field(t, parts[1]),
            None => None,
        }
    } else if parts[0] == "project"@ {
        match c.project {
            Some(p) => spec_project_field(p, parts[1]),
            None => None,
        }
    } else if parts[0] == "request"@ {
        match c.request {
            Some(q) => spec_request_field(q, parts[1]),
            None => None,
        }
    } else if parts[0] == "metadata"@ {
        alist_lookup(c.metadata, parts[1])
    } else {
        None
    }
}

/// Turn a vector of strings into string values.
fn strings_to_values(ss: &Vec<String>) -> (r: Vec<ConditionValue>)
    ensures
        value_views(r@) == spec_string_values(ss.deep_view()),
{
    let mut out: Vec<ConditionValue> = Vec::new();
    let mut i: usize = 0;
    while i < ss.len()
        invariant
            i <= ss.len(),
            out@.len() == i as int,
            forall|j: int|
                0 <= j < i as int ==> out@[j].deep_view() == ValueView::Str(
                    #[trigger] ss.deep_view()[j],
                ),
        decreases ss@.len() - i,
    {
        out.push(ConditionValue::String(ss[i].clone()));
        i = i + 1;
    }
    proof {
        lemma_value_views(out@);
        assert(value_views(out@) =~= spec_string_values(ss.deep_view()));
    }
    out
}

impl EvaluationContext {
    /// Create an empty evaluation context.
    pub fn new() -> (r: Self)
        ensures
            r@ == spec_empty_ctx(),
    {
        let r = EvaluationContext {
            llm: None,
            user: None,
            team: None,
            project: None,
            request: None,
            metadata: Vec::new(),
        };
        proof {
            assert(r.metadata.deep_view() =~= Seq::<(Seq<char>, ValueView)>::empty());
        }
        r
    }

    /// Create a context builder.
    pub fn builder() -> (r: EvaluationContextBuilder)
        ensures
            r.inner@ == spec_empty_ctx(),
    {
        EvaluationContextBuilder { inner: EvaluationContext::new() }
    }

    /// Get a value from the context by dotted path (e.g., "llm.model",
    /// "user.roles").
    pub fn get(&self, path: &str) -> (r: Option<ConditionValue>)
        ensures
            match r {
                Some(v) => spec_ctx_get(self@, path@) == Some(v@),
                None => spec_ctx_get(self@, path@) is None,
            },
    {
        let cs = chars_of(path);
        let parts = split_chars(&cs, '.');
        proof {
            assert(parts.deep_view() == spec_split(path@, '.'));
        }
        if parts.len() < 2 {
            return None;
        }
        proof {
            assert(parts.deep_view()[0] == parts@[0]@);
            assert(parts.deep_view()[1] == parts@[1]@);
        }
        let head = &parts[0];
        let field = &parts[1];
        if chars_eq(head, &chars_of("llm")) {
            match &self.llm {
                Some(l) => self.get_llm_field(l, field),
                None => None,
            }
        } else if chars_eq(head, &chars_of("user")) {
            match &self.user {
                Some(u) => self.get_user_field(u, field),
                None => None,
            }
        } else if chars_eq(head, &chars_of("team")) {
            match &self.team {
                Some(t) => self.get_team_field(t, field),
                None => None,
            }
        } else if chars_eq(head, &chars_of("project")) {
            match &self.project {
                Some(p) => self.get_project_field(p, field),
                None => None,
            }
        } else if chars_eq(head, &chars_of("request")) {
            match &self.request {
                Some(q) => self.get_request_field(q, field),
                None => None,
            }
        } else if chars_eq(head, &chars_of("metadata")) {
            let key = crate::outside::string_from_chars(field);
            match alist_get(&self.metadata, &key) {
                Some(v) => Some(v.clone()),
                None => None,
            }
        } else {
            None
        }
    }

    /// Read one LLM field by name.
    fn get_llm_field(&self, l: &LlmContext, field: &Vec<char>) -> (r: Option<ConditionValue>)
        ensures
            match r {
                Some(v) => spec_llm_field(l.deep_view(), field@) == Some(v@),
                None => spec_llm_field(l.deep_view(), field@) is None,
            },
    {
        if chars_eq(field, &chars_of("provider")) {
            match &l.provider {
                Some(s) => Some(ConditionValue::String(s.clone())),
                None => None,
            }
        } else if chars_eq(field, &chars_of("model")) {
            match &l.model {
                Some(s) => Some(ConditionValue::String(s.clone())),
                None => None,
            }
        } else if chars_eq(field, &chars_of("prompt")) {
            match &l.prompt {
                Some(s) => Some(ConditionValue::String(s.clone())),
                None => None,
            }
        } else if chars_eq(field, &chars_of("maxTokens")) || chars_eq(
            field,
            &chars_of("max_tokens"),
        ) {
            match l.max_tokens {
                Some(n) => Some(ConditionValue::Integer(n as i64)),
                None => None,
            }
        } else if chars_eq(field, &chars_of("temperature")) {
            match l.temperature {
                Some(t) => Some(ConditionValue::Float(t)),
                None => None,
            }
        } else {
            None
        }
    }

    /// Read one user field by name.
    fn get_user_field(&self, u: &UserContext, field: &Vec<char>) -> (r: Option<ConditionValue>)
        ensures
            match r {
                Some(v) => spec_user_field(u.deep_view(), field@) == Some(v@),
                None => spec_user_field(u.deep_view(), field@) is None,
            },
    {
        if chars_eq(field, &chars_of("id")) {
            Some(ConditionValue::String(u.id.clone()))
        } else if chars_eq(field, &chars_of("email")) {
            match &u.email {
                Some(s) => Some(ConditionValue::String(s.clone())),
                None => None,
            }
        } else if chars_eq(field, &chars_of("roles")) {
            Some(ConditionValue::Array(strings_to_values(&u.roles)))
        } else if chars_eq(field, &chars_of("permissions")) {
            Some(ConditionValue::Array(strings_to_values(&u.permissions)))
        } else {
            None
        }
    }

    /// Read one team field by name.
    fn get_team_field(&self, t: &TeamContext, field: &Vec<char>) -> (r: Option<ConditionValue>)
        ensures
            match r {
                Some(v) => spec_team_field(t.deep_view(), field@) == Some(v@),
                None => spec_team_field(t.deep_view(), field@) is None,
            },
    {
        if chars_eq(field, &chars_of("id")) {
            Some(ConditionValue::String(t.id.clone()))
        } else if chars_eq(field, &chars_of("name")) {
            match &t.name {
                Some(s) => Some(ConditionValue::String(s.clone())),
                None => None,
            }
        } else if chars_eq(field, &chars_of("tier")) {
            match &t.tier {
                Some(s) => Some(ConditionValue::String(s.clone())),
                None => None,
            }
        } else {
            None
        }
    }

    /// Read one project field by name.
    fn get_project_field(&self, p: &ProjectContext, field: &Vec<char>) -> (r: Option<
        ConditionValue,
    >)
        ensures
            match r {
                Some(v) => spec_project_field(p.deep_view(), field@) == Some(v@),
                None => spec_project_field(p.deep_view(), field@) is None,
            },
    {
        if chars_eq(field, &chars_of("id")) {
            Some(ConditionValue::String(p.id.clone()))
        } else if chars_eq(field, &chars_of("name")) {
            match &p.name {
                Some(s) => Some(ConditionValue::String(s.clone())),
                None => None,
            }
        } else if chars_eq(field, &chars_of("environment")) {
            match &p.environment {
                Some(s) => Some(ConditionValue::String(s.clone())),
                None => None,
            }
        } else {
            None
        }
    }

    /// Read one request field by name.
    fn get_request_field(&self, q: &RequestContext, field: &Vec<char>) -> (r: Option<
        ConditionValue,
    >)
        ensures
            match r {
                Some(v) => spec_request_field(q.deep_view(), field@) == Some(v@),
                None => spec_request_field(q.deep_view(), field@) is None,
            },
    {
        if chars_eq(field, &chars_of("id")) {
            Some(ConditionValue::String(q.id.clone()))
        } else if chars_eq(field, &chars_of("timestamp")) {
            match q.timestamp {
                Some(t) => Some(ConditionValue::Integer(t)),
                None => None,
            }
        } else if chars_eq(field, &chars_of("ipAddress")) || chars_eq(
            field,
            &chars_of("ip_address"),
        ) {
            match &q.ip_address {
                Some(s) => Some(ConditionValue::String(s.clone())),
                None => None,
            }
        } else if chars_eq(field, &chars_of("userAgent")) || chars_eq(
            field,
            &chars_of("user_agent"),
        ) {
            match &q.user_agent {
                Some(s) => Some(ConditionValue::String(s.clone())),
                None => None,
            }
        } else {
            None
        }
    }
}

/// The view of a context with nothing in it.
pub open spec fn spec_empty_ctx() -> CtxView {
    CtxView {
        llm: None,
        user: None,
        team: None,
        project: None,
        request: None,
        metadata: Seq::empty(),
    }
}

impl Default for EvaluationContext {
    fn default() -> (r: Self)
        ensures
            r@ == spec_empty_ctx(),
    {
        EvaluationContext::new()
    }
}

/// Builder for creating evaluation contexts.
#[derive(Debug)]
pub struct EvaluationContextBuilder {
    /// The context under construction
    pub inner: EvaluationContext,
}

impl EvaluationContextBuilder {
    /// Create a new context builder.
    pub fn new() -> (r: Self)
        ensures
            r.inner@ == spec_empty_ctx(),
    {
        EvaluationContextBuilder { inner: EvaluationContext::new() }
    }

    /// Set the LLM provider.
    pub fn with_provider(self, provider: &str) -> (r: Self)
        ensures
            r.inner@ == (CtxView {
                llm: Some(
                    (LlmView {
                        provider: Some(provider@),
                        ..spec_llm_or_default(self.inner@.llm)
                    }),
                ),
                ..self.inner@
            }),
    {
        let mut this = self;
        let mut llm = take_llm(&mut this.inner);
        llm.provider = Some(provider.to_owned());
        this.inner.llm = Some(llm);
        this
    }

    /// Set the LLM model.
    pub fn with_model(self, model: &str) -> (r: Self)
        ensures
            r.inner@ == (CtxView {
                llm: Some(
                    (LlmView { model: Some(model@), ..spec_llm_or_default(self.inner@.llm) }),
                ),
                ..self.inner@
            }),
    {
        let mut this = self;
        let mut llm = take_llm(&mut this.inner);
        llm.model = Some(model.to_owned());
        this.inner.llm = Some(llm);
        this
    }

    /// Set the prompt.
    pub fn with_prompt(self, prompt: &str) -> (r: Self)
        ensures
            r.inner@ == (CtxView {
                llm: Some(
                    (LlmView { prompt: Some(prompt@), ..spec_llm_or_default(self.inner@.llm) }),
                ),
                ..self.inner@
            }),
    {
        let mut this = self;
        let mut llm = take_llm(&mut this.inner);
        llm.prompt = Some(prompt.to_owned());
        this.inner.llm = Some(llm);
        this
    }

    /// Set max tokens.
    pub fn with_max_tokens(self, max_tokens: u32) -> (r: Self)
        ensures
            r.inner@ == (CtxView {
                llm: Some(
                    (LlmView {
                        max_tokens: Some(max_tokens),
                        ..spec_llm_or_default(self.inner@.llm)
                    }),
                ),
                ..self.inner@
            }),
    {
        let mut this = self;
        let mut llm = take_llm(&mut this.inner);
        llm.max_tokens = Some(max_tokens);
        this.inner.llm = Some(llm);
        this
    }

    /// Set the temperature, in millionths.
    pub fn with_temperature(self, temperature: i64) -> (r: Self)
        ensures
            r.inner@ == (CtxView {
                llm: Some(
                    (LlmView {
                        temperature: Some(temperature as int),
                        ..spec_llm_or_default(self.inner@.llm)
                    }),
                ),
                ..self.inner@
            }),
    {
        let mut this = self;
        let mut llm = take_llm(&mut this.inner);
        llm.temperature = Some(temperature);
        this.inner.llm = Some(llm);
        this
    }

    /// Set the user ID, clearing any other user detail.
    pub fn with_user_id(self, id: &str) -> (r: Self)
        ensures
            r.inner@ == (CtxView {
                user: Some(
                    (UserView {
                        id: id@,
                        email: None,
                        roles: Seq::empty(),
                        permissions: Seq::empty(),
                    }),
                ),
                ..self.inner@
            }),
    {
        let mut this = self;
        let user = UserContext {
            id: id.to_owned(),
            email: None,
            roles: Vec::new(),
            permissions: Vec::new(),
        };
        proof {
            assert(user.roles.deep_view() =~= Seq::<Seq<char>>::empty());
            assert(user.permissions.deep_view() =~= Seq::<Seq<char>>::empty());
        }
        this.inner.user = Some(user);
        this
    }

    /// Set user details.
    pub fn with_user(self, id: &str, email: Option<String>, roles: Vec<String>) -> (r: Self)
        ensures
            r.inner@ == (CtxView {
                user: Some(
                    (UserView {
                        id: id@,
                        email: match email {
                            Some(e) => Some(e@),
                            None => None,
                        },
                        roles: roles.deep_view(),
                        permissions: Seq::empty(),
                    }),
                ),
                ..self.inner@
            }),
    {
        let mut this = self;
        let user = UserContext { id: id.to_owned(), email, roles, permissions: Vec::new() };
        proof {
            assert(user.permissions.deep_view() =~= Seq::<Seq<char>>::empty());
        }
        this.inner.user = Some(user);
        this
    }

    /// Set the team.
    pub fn with_team(self, id: &str, name: Option<String>, tier: Option<String>) -> (r: Self)
        ensures
            r.inner@ == (CtxView {
                team: Some(
                    (TeamView {
                        id: id@,
                        name: match name {
                            Some(n) => Some(n@),
                            None => None,
                        },
                        tier: match tier {
                            Some(t) => Some(t@),
                            None => None,
                        },
                    }),
                ),
                ..self.inner@
            }),
    {
        let mut this = self;
        this.inner.team = Some(TeamContext { id: id.to_owned(), name, tier });
        this
    }

    /// Set the project.
    pub fn with_project(self, id: &str, name: Option<String>, environment: Option<String>) -> (r:
        Self)
        ensures
            r.inner@ == (CtxView {
                project: Some(
                    (ProjectView {
                        id: id@,
                        name: match name {
                            Some(n) => Some(n@),
                            None => None,
                        },
                        environment: match environment {
                            Some(e) => Some(e@),
                            None => None,
                        },
                    }),
                ),
                ..self.inner@
            }),
    {
        let mut this = self;
        this.inner.project = Some(ProjectContext { id: id.to_owned(), name, environment });
        this
    }

    /// Set the request context with the current wall-clock timestamp.
    pub fn with_request(self, id: &str) -> (r: Self)
        ensures
            r.inner@.llm == self.inner@.llm,
            r.inner@.user == self.inner@.user,
            r.inner@.team == self.inner@.team,
            r.inner@.project == self.inner@.project,
            r.inner@.metadata == self.inner@.metadata,
            r.inner@.request matches Some(q) && q.id == id@ && q.ip_address is None
                && q.user_agent is None,
    {
        let mut this = self;
        let secs = crate::outside::now_micros() / 1_000_000;
        this.inner.request = Some(
            RequestContext {
                id: id.to_owned(),
                timestamp: Some(secs),
                ip_address: None,
                user_agent: None,
            },
        );
        this
    }

    /// Set full request context with the current wall-clock timestamp.
    pub fn with_request_details(
        self,
        id: &str,
        ip_address: Option<String>,
        user_agent: Option<String>,
    ) -> (r: Self)
        ensures
            r.inner@.llm == self.inner@.llm,
            r.inner@.user == self.inner@.user,
            r.inner@.team == self.inner@.team,
            r.inner@.project == self.inner@.project,
            r.inner@.metadata == self.inner@.metadata,
            r.inner@.request matches Some(q) && q.id == id@ && q.ip_address == (match ip_address {
                Some(s) => Some(s@),
                None => None::<Seq<char>>,
            }) && q.user_agent == (match user_agent {
                Some(s) => Some(s@),
                None => None::<Seq<char>>,
            }),
    {
        let mut this = self;
        let secs = crate::outside::now_micros() / 1_000_000;
        this.inner.request = Some(
            RequestContext { id: id.to_owned(), timestamp: Some(secs), ip_address, user_agent },
        );
        this
    }

    /// Add metadata.
    pub fn with_metadata(self, key: &str, value: ConditionValue) -> (r: Self)
        ensures
            r.inner@ == (CtxView {
                metadata: alist_upsert(self.inner@.metadata, key@, value@),
                ..self.inner@
            }),
    {
        let mut this = self;
        alist_set(&mut this.inner.metadata, key.to_owned(), value);
        this
    }

    /// Build the evaluation context.
    pub fn build(self) -> (r: EvaluationContext)
        ensures
            r@ == self.inner@,
    {
        self.inner
    }
}

/// The LLM sub-record to extend: the present one, or a fresh empty one.
pub open spec fn spec_llm_or_default(l: Option<LlmView>) -> LlmView {
    match l {
        Some(v) => v,
        None => LlmView {
            provider: None,
            model: None,
            prompt: None,
            max_tokens: None,
            temperature: None,
            functions: None,
        },
    }
}

/// Take the LLM sub-record out of a context, or a fresh one if absent.
fn take_llm(ctx: &mut EvaluationContext) -> (r: LlmContext)
    ensures
        r.deep_view() == spec_llm_or_default(old(ctx)@.llm),
        final(ctx).user == old(ctx).user,
        final(ctx).team == old(ctx).team,
        final(ctx).project == old(ctx).project,
        final(ctx).request == old(ctx).request,
        final(ctx).metadata == old(ctx).metadata,
{
    let llm = ctx.llm.take();
    match llm {
        Some(l) => l,
        None => LlmContext::default(),
    }
}

/// Split the characters of `s` at every `sep`.
pub fn split_chars(s: &Vec<char>, sep: char) -> (r: Vec<Vec<char>>)
    ensures
        r.deep_view() == spec_split(s@, sep),
{
    let mut parts: Vec<Vec<char>> = Vec::new();
    let mut p: usize = 0;
    proof {
        assert(s@.subrange(0, s@.len() as int) =~= s@);
        assert(parts.deep_view() =~= Seq::<Seq<char>>::empty());
        assert(Seq::<Seq<char>>::empty() + spec_split(s@, sep) =~= spec_split(s@, sep));
    }
    loop
        invariant
            p <= s@.len(),
            spec_split(s@, sep) =~= parts.deep_view() + spec_split(
                s@.subrange(p as int, s@.len() as int),
                sep,
            ),
        decreases s@.len() - p + 1,
    {
        let ghost suffix = s@.subrange(p as int, s@.len() as int);
        let j = find_char_from(s, sep, p);
        proof {
            lemma_find_char(suffix, sep);
        }
        let ghost before = parts.deep_view();
        if j == s.len() {
            let seg = chars_range(s, p, s.len());
            proof {
                assert(spec_find_char(suffix, sep) == suffix.len());
                assert(spec_split(suffix, sep) == seq![suffix]);
                assert(seg@ == suffix);
            }
            parts.push(seg);
            proof {
                assert(parts.deep_view() =~~= before.push(suffix));
                assert(before + seq![suffix] =~= before.push(suffix));
                assert(spec_split(s@, sep) =~= parts.deep_view());
            }
            return parts;
        } else {
            let seg = chars_range(s, p, j);
            proof {
                let i = spec_find_char(suffix, sep);
                assert(i == j - p);
                assert(i < suffix.len());
                assert(spec_split(suffix, sep) == seq![suffix.subrange(0, i)] + spec_split(
                    suffix.subrange(i + 1, suffix.len() as int),
                    sep,
                ));
                assert(seg@ =~= suffix.subrange(0, i));
                assert(suffix.subrange(i + 1, suffix.len() as int) =~= s@.subrange(
                    j + 1 as int,
                    s@.len() as int,
                ));
            }
            parts.push(seg);
            proof {
                assert(parts.deep_view() =~~= before.push(seg@));
                assert(before + (seq![seg@] + spec_split(
                    s@.subrange(j + 1 as int, s@.len() as int),
                    sep,
                )) =~= parts.deep_view() + spec_split(
                    s@.subrange(j + 1 as int, s@.len() as int),
                    sep,
                ));
                assert(spec_split(s@, sep) =~= parts.deep_view() + spec_split(
                    s@.subrange(j + 1 as int, s@.len() as int),
                    sep,
                ));
            }
            p = j + 1;
        }
    }
}

} // verus!

verus! {

/// One optional string field as zero or one object entries.
pub open spec fn spec_opt_str_entry(name: Seq<char>, v: Option<Seq<char>>) -> Seq<
    (Seq<char>, NodeView),
> {
    match v {
        Some(s) => seq![(name, NodeView::Str(s))],
        None => Seq::empty(),
    }
}

/// The canonical JSON shape of the LLM sub-record: present fields only, in a
/// fixed order, compound names in camelCase.
pub open spec fn spec_llm_node(l: LlmView) -> NodeView {
    NodeView::Obj(
        spec_opt_str_entry("provider"@, l.provider) + spec_opt_str_entry("model"@, l.model)
            + spec_opt_str_entry("prompt"@, l.prompt) + (match l.max_tokens {
            Some(n) => seq![("maxTokens"@, NodeView::Int(n as int))],
            None => Seq::empty(),
        }) + (match l.temperature {
            Some(t) => seq![("temperature"@, NodeView::Flt(t))],
            None => Seq::empty(),
        }) + (match l.functions {
            Some(fs) => seq![
                ("functions"@, NodeView::Arr(crate::json::spec_value_nodes(fs))),
            ],
            None => Seq::empty(),
        }),
    )
}

/// A sequence of strings as a JSON array of strings.
pub open spec fn spec_str_arr(ss: Seq<Seq<char>>) -> NodeView {
    NodeView::Arr(Seq::new(ss.len(), |i: int| NodeView::Str(ss[i])))
}

/// The canonical JSON shape of the user sub-record.
pub open spec fn spec_user_node(u: UserView) -> NodeView {
    NodeView::Obj(
        seq![("id"@, NodeView::Str(u.id))] + spec_opt_str_entry("email"@, u.email) + seq![
            ("roles"@, spec_str_arr(u.roles)),
            ("permissions"@, spec_str_arr(u.permissions)),
        ],
    )
}

/// The canonical JSON shape of the team sub-record.
pub open spec fn spec_team_node(t: TeamView) -> NodeView {
    NodeView::Obj(
        seq![("id"@, NodeView::Str(t.id))] + spec_opt_str_entry("name"@, t.name)
            + spec_opt_str_entry("tier"@, t.tier),
    )
}

/// The canonical JSON shape of the project sub-record.
pub open spec fn spec_project_node(p: ProjectView) -> NodeView {
    NodeView::Obj(
        seq![("id"@, NodeView::Str(p.id))] + spec_opt_str_entry("name"@, p.name)
            + spec_opt_str_entry("environment"@, p.environment),
    )
}

/// The canonical JSON shape of the request sub-record.
pub open spec fn spec_request_node(q: RequestView) -> NodeView {
    NodeView::Obj(
        seq![("id"@, NodeView::Str(q.id))] + (match q.timestamp {
            Some(t) => seq![("timestamp"@, NodeView::Int(t))],
            None => Seq::empty(),
        }) + spec_opt_str_entry("ipAddress"@, q.ip_address) + spec_opt_str_entry(
            "userAgent"@,
            q.user_agent,
        ),
    )
}

/// The metadata mapping as JSON object entries.
pub open spec fn spec_meta_entries(m: Seq<(Seq<char>, ValueView)>) -> Seq<(Seq<char>, NodeView)> {
    Seq::new(m.len(), |i: int| (m[i].0, crate::json::spec_value_node(m[i].1)))
}

/// The canonical JSON shape of a whole context: stable field order, absent
/// sub-records and an empty metadata map left out.
pub open spec fn spec_ctx_node(c: CtxView) -> NodeView {
    NodeView::Obj(
        (match c.llm {
            Some(l) => seq![("llm"@, spec_llm_node(l))],
            None => Seq::empty(),
        }) + (match c.user {
            Some(u) => seq![("user"@, spec_user_node(u))],
            None => Seq::empty(),
        }) + (match c.team {
            Some(t) => seq![("team"@, spec_team_node(t))],
            None => Seq::empty(),
        }) + (match c.project {
            Some(p) => seq![("project"@, spec_project_node(p))],
            None => Seq::empty(),
        }) + (match c.request {
            Some(q) => seq![("request"@, spec_request_node(q))],
            None => Seq::empty(),
        }) + (if c.metadata.len() > 0 {
            seq![("metadata"@, NodeView::Obj(spec_meta_entries(c.metadata)))]
        } else {
            Seq::empty()
        }),
    )
}

/// Turn a vector of strings into a JSON array node of strings.
fn strings_node(ss: &Vec<String>) -> (r: JsonNode)
    ensures
        r@ == spec_str_arr(ss.deep_view()),
{
    let mut out: Vec<JsonNode> = Vec::new();
    let mut i: usize = 0;
    while i < ss.len()
        invariant
            i <= ss.len(),
            out@.len() == i as int,
            forall|j: int|
                0 <= j < i as int ==> out@[j].deep_view() == NodeView::Str(
                    #[trigger] ss.deep_view()[j],
                ),
        decreases ss@.len() - i,
    {
        out.push(JsonNode::Str(ss[i].clone()));
        i = i + 1;
    }
    let r = JsonNode::Arr(out);
    proof {
        crate::json::lemma_node_views(out@);
        assert(crate::json::node_views(out@) =~= (spec_str_arr(ss.deep_view()))->Arr_0);
    }
    r
}


/// The JSON node of the LLM sub-record.
#[verifier::rlimit(100)]
fn llm_node(l: &LlmContext) -> (r: JsonNode)
    ensures
        r@ == spec_llm_node(l.deep_view()),
{
    let ghost lv = l.deep_view();
    let ghost e0 = spec_opt_str_entry("provider"@, lv.provider);
    let ghost e1 = spec_opt_str_entry("model"@, lv.model);
    let ghost e2 = spec_opt_str_entry("prompt"@, lv.prompt);
    let ghost e3: Seq<(Seq<char>, NodeView)> = match lv.max_tokens {
        Some(n) => seq![("maxTokens"@, NodeView::Int(n as int))],
        None => Seq::empty(),
    };
    let ghost e4: Seq<(Seq<char>, NodeView)> = match lv.temperature {
        Some(t) => seq![("temperature"@, NodeView::Flt(t))],
        None => Seq::empty(),
    };
    let ghost e5: Seq<(Seq<char>, NodeView)> = match lv.functions {
        Some(fs) => seq![("functions"@, NodeView::Arr(crate::json::spec_value_nodes(fs)))],
        None => Seq::empty(),
    };
    let mut fields: Vec<(String, JsonNode)> = Vec::new();
    if let Some(s) = &l.provider {
        fields.push(("provider".to_owned(), JsonNode::Str(s.clone())));
    }
    proof {
        crate::json::lemma_entry_views(fields@);
        assert(crate::json::entry_views(fields@) =~~= e0);
    }
    if let Some(s) = &l.model {
        fields.push(("model".to_owned(), JsonNode::Str(s.clone())));
    }
    proof {
        crate::json::lemma_entry_views(fields@);
        assert(crate::json::entry_views(fields@) =~~= e0 + e1);
    }
    if let Some(s) = &l.prompt {
        fields.push(("prompt".to_owned(), JsonNode::Str(s.clone())));
    }
    proof {
        crate::json::lemma_entry_views(fields@);
        assert(crate::json::entry_views(fields@) =~~= e0 + e1 + e2);
    }
    if let Some(n) = l.max_tokens {
        fields.push(("maxTokens".to_owned(), JsonNode::Int(n as i64)));
    }
    proof {
        crate::json::lemma_entry_views(fields@);
        assert(crate::json::entry_views(fields@) =~~= e0 + e1 + e2 + e3);
    }
    if let Some(t) = l.temperature {
        fields.push(("temperature".to_owned(), JsonNode::Flt(t)));
    }
    proof {
        crate::json::lemma_entry_views(fields@);
        assert(crate::json::entry_views(fields@) =~~= e0 + e1 + e2 + e3 + e4);
    }
    if let Some(fs) = &l.functions {
        let mut items: Vec<JsonNode> = Vec::new();
        let mut i: usize = 0;
        while i < fs.len()
            invariant
                i <= fs.len(),
                items@.len() == i as int,
                forall|j: int|
                    0 <= j < i as int ==> items@[j].deep_view() == crate::json::spec_value_node(
                        #[trigger] crate::value::value_views(fs@)[j],
                    ),
            decreases fs@.len() - i,
        {
            proof {
                lemma_value_views(fs@);
            }
            let n = crate::json::value_to_node(&fs[i]);
            items.push(n);
            i = i + 1;
        }
        proof {
            crate::json::lemma_node_views(items@);
            crate::json::lemma_value_nodes(crate::value::value_views(fs@));
            lemma_value_views(fs@);
            assert(crate::value::value_views(fs@) =~= fs.deep_view());
            assert(crate::json::node_views(items@) =~= crate::json::spec_value_nodes(
                crate::value::value_views(fs@),
            ));
        }
        fields.push(("functions".to_owned(), JsonNode::Arr(items)));
    }
    proof {
        crate::json::lemma_entry_views(fields@);
        assert(crate::json::entry_views(fields@) =~~= e0 + e1 + e2 + e3 + e4 + e5);
    }
    let node = JsonNode::Obj(fields);
    proof {
        assert(node@ == NodeView::Obj(crate::json::entry_views(fields@)));
        assert(spec_llm_node(lv) == NodeView::Obj(e0 + e1 + e2 + e3 + e4 + e5));
    }
    node
}

/// The JSON node of the user sub-record.
#[verifier::rlimit(100)]
fn user_node(u: &UserContext) -> (r: JsonNode)
    ensures
        r@ == spec_user_node(u.deep_view()),
{
    let mut fields: Vec<(String, JsonNode)> = Vec::new();
    fields.push(("id".to_owned(), JsonNode::Str(u.id.clone())));
    if let Some(s) = &u.email {
        fields.push(("email".to_owned(), JsonNode::Str(s.clone())));
    }
    fields.push(("roles".to_owned(), strings_node(&u.roles)));
    fields.push(("permissions".to_owned(), strings_node(&u.permissions)));
    let node = JsonNode::Obj(fields);
    proof {
        crate::json::lemma_entry_views(node->Obj_0@);
        assert(crate::json::entry_views(node->Obj_0@) =~= (spec_user_node(u.deep_view()))->Obj_0);
    }
    node
}

/// The JSON node of the team sub-record.
#[verifier::rlimit(100)]
fn team_node(t: &TeamContext) -> (r: JsonNode)
    ensures
        r@ == spec_team_node(t.deep_view()),
{
    let mut fields: Vec<(String, JsonNode)> = Vec::new();
    fields.push(("id".to_owned(), JsonNode::Str(t.id.clone())));
    if let Some(s) = &t.name {
        fields.push(("name".to_owned(), JsonNode::Str(s.clone())));
    }
    if let Some(s) = &t.tier {
        fields.push(("tier".to_owned(), JsonNode::Str(s.clone())));
    }
    let node = JsonNode::Obj(fields);
    proof {
        crate::json::lemma_entry_views(node->Obj_0@);
        assert(crate::json::entry_views(node->Obj_0@) =~= (spec_team_node(t.deep_view()))->Obj_0);
    }
    node
}

/// The JSON node of the project sub-record.
#[verifier::rlimit(100)]
fn project_node(p: &ProjectContext) -> (r: JsonNode)
    ensures
        r@ == spec_project_node(p.deep_view()),
{
    let mut fields: Vec<(String, JsonNode)> = Vec::new();
    fields.push(("id".to_owned(), JsonNode::Str(p.id.clone())));
    if let Some(s) = &p.name {
        fields.push(("name".to_owned(), JsonNode::Str(s.clone())));
    }
    if let Some(s) = &p.environment {
        fields.push(("environment".to_owned(), JsonNode::Str(s.clone())));
    }
    let node = JsonNode::Obj(fields);
    proof {
        crate::json::lemma_entry_views(node->Obj_0@);
        assert(crate::json::entry_views(node->Obj_0@) =~= (spec_project_node(
            p.deep_view(),
        ))->Obj_0);
    }
    node
}

/// The JSON node of the request sub-record.
#[verifier::rlimit(100)]
fn request_node(q: &RequestContext) -> (r: JsonNode)
    ensures
        r@ == spec_request_node(q.deep_view()),
{
    let mut fields: Vec<(String, JsonNode)> = Vec::new();
    fields.push(("id".to_owned(), JsonNode::Str(q.id.clone())));
    if let Some(t) = q.timestamp {
        fields.push(("timestamp".to_owned(), JsonNode::Int(t)));
    }
    if let Some(s) = &q.ip_address {
        fields.push(("ipAddress".to_owned(), JsonNode::Str(s.clone())));
    }
    if let Some(s) = &q.user_agent {
        fields.push(("userAgent".to_owned(), JsonNode::Str(s.clone())));
    }
    let node = JsonNode::Obj(fields);
    proof {
        crate::json::lemma_entry_views(node->Obj_0@);
        assert(crate::json::entry_views(node->Obj_0@) =~= (spec_request_node(
            q.deep_view(),
        ))->Obj_0);
    }
    node
}

/// The JSON node of the metadata map.
#[verifier::rlimit(100)]
fn metadata_node(m: &Vec<(String, ConditionValue)>) -> (r: JsonNode)
    ensures
        r@ == NodeView::Obj(spec_meta_entries(m.deep_view())),
{
    let mut fields: Vec<(String, JsonNode)> = Vec::new();
    let mut i: usize = 0;
    while i < m.len()
        invariant
            i <= m.len(),
            fields@.len() == i as int,
            forall|j: int|
                0 <= j < i as int ==> (fields@[j].0@, fields@[j].1.deep_view())
                    == #[trigger] spec_meta_entries(m.deep_view())[j],
        decreases m@.len() - i,
    {
        proof {
            assert(m.deep_view()[i as int] == (m@[i as int].0@, m@[i as int].1.deep_view()));
        }
        let k = m[i].0.clone();
        let n = crate::json::value_to_node(&m[i].1);
        fields.push((k, n));
        i = i + 1;
    }
    let node = JsonNode::Obj(fields);
    proof {
        crate::json::lemma_entry_views(node->Obj_0@);
        assert(crate::json::entry_views(node->Obj_0@) =~= spec_meta_entries(m.deep_view()));
    }
    node
}

impl EvaluationContext {
    /// The canonical JSON tree of this context.
    #[verifier::rlimit(100)]
    pub fn to_node(&self) -> (r: JsonNode)
        ensures
            r@ == spec_ctx_node(self@),
    {
        let mut entries: Vec<(String, JsonNode)> = Vec::new();
        if let Some(l) = &self.llm {
            entries.push(("llm".to_owned(), llm_node(l)));
        }
        if let Some(u) = &self.user {
            entries.push(("user".to_owned(), user_node(u)));
        }
        if let Some(t) = &self.team {
            entries.push(("team".to_owned(), team_node(t)));
        }
        if let Some(p) = &self.project {
            entries.push(("project".to_owned(), project_node(p)));
        }
        if let Some(q) = &self.request {
            entries.push(("request".to_owned(), request_node(q)));
        }
        if self.metadata.len() > 0 {
            entries.push(("metadata".to_owned(), metadata_node(&self.metadata)));
        }
        let r = JsonNode::Obj(entries);
        proof {
            crate::json::lemma_entry_views(r->Obj_0@);
            assert(crate::json::entry_views(r->Obj_0@) =~~= (spec_ctx_node(self@))->Obj_0);
        }
        r
    }

    /// The canonical, stable JSON serialization of this context, used by the
    /// cache fingerprint.
    pub fn to_json(&self) -> (r: String)
        ensures
            r@ == crate::json::spec_ser_node(spec_ctx_node(self@)),
    {
        let node = self.to_node();
        crate::json::node_to_string(&node)
    }
}

} // verus!
