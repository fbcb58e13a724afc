//! Role-based and attribute-based authorization.

use vstd::prelude::*;
use crate::text::{cat, owned, str_eq, contains, seq_contains};

verus! {

/// A scalar attribute value. Numbers are integers; any other JSON value
/// (a non-integer number, an object, a nested array) is carried as its JSON text.
pub enum Scalar {
    Null,
    Bool(bool),
    Int(i64),
    Str(String),
    Other(String),
}

/// A scalar as plain values.
pub enum ScalarView {
    Null,
    Bool(bool),
    Int(i64),
    Str(Seq<char>),
    Other(Seq<char>),
}

impl View for Scalar {
    type V = ScalarView;

    open spec fn view(&self) -> ScalarView {
        match self {
            Scalar::Null => ScalarView::Null,
            Scalar::Bool(b) => ScalarView::Bool(*b),
            Scalar::Int(i) => ScalarView::Int(*i),
            Scalar::Str(s) => ScalarView::Str(s@),
            Scalar::Other(s) => ScalarView::Other(s@),
        }
    }
}

/// An attribute value: a scalar or a list of scalars.
pub enum AttrValue {
    Null,
    Bool(bool),
    Int(i64),
    Str(String),
    List(Vec<Scalar>),
    Other(String),
}

/// An attribute value as plain values.
pub enum AttrView {
    Null,
    Bool(bool),
    Int(i64),
    Str(Seq<char>),
    List(Seq<ScalarView>),
    Other(Seq<char>),
}

impl View for AttrValue {
    type V = AttrView;

    open spec fn view(&self) -> AttrView {
        match self {
            AttrValue::Null => AttrView::Null,
            AttrValue::Bool(b) => AttrView::Bool(*b),
            AttrValue::Int(i) => AttrView::Int(*i),
            AttrValue::Str(s) => AttrView::Str(s@),
            AttrValue::List(v) => AttrView::List(v@.map_values(|x: Scalar| x@)),
            AttrValue::Other(s) => AttrView::Other(s@),
        }
    }
}

pub fn scalar_eq(a: &Scalar, b: &Scalar) -> (r: bool)
    ensures
        r == (a@ == b@),
{
    match (a, b) {
        (Scalar::Null, Scalar::Null) => true,
        (Scalar::Bool(x), Scalar::Bool(y)) => *x == *y,
        (Scalar::Int(x), Scalar::Int(y)) => *x == *y,
        (Scalar::Str(x), Scalar::Str(y)) => str_eq(x.as_str(), y.as_str()),
        (Scalar::Other(x), Scalar::Other(y)) => str_eq(x.as_str(), y.as_str()),
        _ => false,
    }
}

/// The scalar that an attribute value equals, when it is not a list.
pub open spec fn as_scalar(v: AttrView) -> Option<ScalarView> {
    match v {
        AttrView::Null => Some(ScalarView::Null),
        AttrView::Bool(b) => Some(ScalarView::Bool(b)),
        AttrView::Int(i) => Some(ScalarView::Int(i)),
        AttrView::Str(s) => Some(ScalarView::Str(s)),
        AttrView::Other(s) => Some(ScalarView::Other(s)),
        AttrView::List(_) => None,
    }
}

fn to_scalar(v: &AttrValue) -> (r: Option<Scalar>)
    ensures
        match r {
            Some(s) => as_scalar(v@) == Some(s@),
            None => as_scalar(v@) is None,
        },
{
    match v {
        AttrValue::Null => Some(Scalar::Null),
        AttrValue::Bool(b) => Some(Scalar::Bool(*b)),
        AttrValue::Int(i) => Some(Scalar::Int(*i)),
        AttrValue::Str(s) => Some(Scalar::Str(s.clone())),
        AttrValue::Other(s) => Some(Scalar::Other(s.clone())),
        AttrValue::List(_) => None,
    }
}

fn list_contains(list: &Vec<Scalar>, x: &Scalar) -> (r: bool)
    ensures
        r == list@.map_values(|s: Scalar| s@).contains(x@),
{
    let ghost l = list@.map_values(|s: Scalar| s@);
    let mut i: usize = 0;
    while i < list.len()
        invariant
            l == list@.map_values(|s: Scalar| s@),
            i <= list@.len(),
            forall|j: int| 0 <= j < i ==> l[j] != x@,
        decreases list@.len() - i,
    {
        if scalar_eq(&list[i], x) {
            assert(l[i as int] == x@);
            return true;
        }
        i = i + 1;
    }
    false
}

pub fn attr_eq(a: &AttrValue, b: &AttrValue) -> (r: bool)
    ensures
        r == (a@ == b@),
{
    match (a, b) {
        (AttrValue::Null, AttrValue::Null) => true,
        (AttrValue::Bool(x), AttrValue::Bool(y)) => *x == *y,
        (AttrValue::Int(x), AttrValue::Int(y)) => *x == *y,
        (AttrValue::Str(x), AttrValue::Str(y)) => str_eq(x.as_str(), y.as_str()),
        (AttrValue::Other(x), AttrValue::Other(y)) => str_eq(x.as_str(), y.as_str()),
        (AttrValue::List(x), AttrValue::List(y)) => {
            let ghost lx = x@.map_values(|s: Scalar| s@);
            let ghost ly = y@.map_values(|s: Scalar| s@);
            assert(a@ == AttrView::List(lx) && b@ == AttrView::List(ly));
            if x.len() != y.len() {
                assert(lx.len() != ly.len());
                return false;
            }
            let mut i: usize = 0;
            while i < x.len()
                invariant
                    lx == x@.map_values(|s: Scalar| s@),
                    ly == y@.map_values(|s: Scalar| s@),
                    a@ == AttrView::List(lx),
                    b@ == AttrView::List(ly),
                    x@.len() == y@.len(),
                    i <= x@.len(),
                    forall|j: int| 0 <= j < i ==> lx[j] == ly[j],
                decreases x@.len() - i,
            {
                if !scalar_eq(&x[i], &y[i]) {
                    assert(lx[i as int] != ly[i as int]);
                    return false;
                }
                i = i + 1;
            }
            assert(lx =~= ly);
            true
        },
        _ => false,
    }
}

/// Comparison of two attribute values: the sign of the difference of two
/// integers, and 0 for anything else.
pub open spec fn compare_spec(a: AttrView, b: AttrView) -> i32 {
    match (a, b) {
        (AttrView::Int(x), AttrView::Int(y)) => if x < y { -1i32 } else if x == y { 0i32 } else { 1i32 },
        _ => 0i32,
    }
}

pub fn compare_values(a: &AttrValue, b: &AttrValue) -> (r: i32)
    ensures
        r == compare_spec(a@, b@),
{
    match (a, b) {
        (AttrValue::Int(x), AttrValue::Int(y)) => if *x < *y {
            -1
        } else if *x == *y {
            0
        } else {
            1
        },
        _ => 0,
    }
}

/// How a condition compares an attribute with its value.
#[derive(Debug, Clone, Copy, PartialEq, Eq, Structural)]
pub enum Operator {
    Eq,
    Ne,
    Gt,
    Ge,
    Lt,
    Le,
    Contains,
    In,
    Regex,
}

/// Whether a rule allows or refuses.
#[derive(Debug, Clone, Copy, PartialEq, Eq, Structural)]
pub enum Effect {
    Permit,
    Deny,
}

/// A condition on one named attribute.
pub struct AttributeCondition {
    pub attribute: String,
    pub operator: Operator,
    pub value: AttrValue,
}

/// Whether attribute value `a` satisfies `op` against the condition's value `v`.
/// `Regex` matches by substring.
pub open spec fn condition_holds(op: Operator, a: AttrView, v: AttrView) -> bool {
    match op {
        Operator::Eq => a == v,
        Operator::Ne => a != v,
        Operator::Gt => compare_spec(a, v) > 0,
        Operator::Ge => compare_spec(a, v) >= 0,
        Operator::Lt => compare_spec(a, v) < 0,
        Operator::Le => compare_spec(a, v) <= 0,
        Operator::Contains => match (a, v) {
            (AttrView::List(arr), AttrView::Str(val)) => arr.contains(ScalarView::Str(val)),
            _ => false,
        },
        Operator::In => match v {
            AttrView::List(arr) => as_scalar(a) matches Some(s) && arr.contains(s),
            _ => false,
        },
        Operator::Regex => match (a, v) {
            (AttrView::Str(s), AttrView::Str(p)) => seq_contains(s, p),
            _ => false,
        },
    }
}

/// On integer attributes the comparison operators mean what they say: `Gt`
/// holds exactly when the attribute is greater than the condition's value,
/// `Ge` when not less, `Lt` when less, `Le` when not greater, `Eq` when equal
/// and `Ne` when different.
pub proof fn law_integer_conditions(a: i64, v: i64)
    ensures
        condition_holds(Operator::Gt, AttrView::Int(a), AttrView::Int(v)) == (a > v),
        condition_holds(Operator::Ge, AttrView::Int(a), AttrView::Int(v)) == (a >= v),
        condition_holds(Operator::Lt, AttrView::Int(a), AttrView::Int(v)) == (a < v),
        condition_holds(Operator::Le, AttrView::Int(a), AttrView::Int(v)) == (a <= v),
        condition_holds(Operator::Eq, AttrView::Int(a), AttrView::Int(v)) == (a == v),
        condition_holds(Operator::Ne, AttrView::Int(a), AttrView::Int(v)) == (a != v),
{
}

pub fn evaluate_condition(condition: &AttributeCondition, attr_value: &AttrValue) -> (r: bool)
    ensures
        r == condition_holds(condition.operator, attr_value@, condition.value@),
{
    match condition.operator {
        Operator::Eq => attr_eq(attr_value, &condition.value),
        Operator::Ne => !attr_eq(attr_value, &condition.value),
        Operator::Gt => compare_values(attr_value, &condition.value) > 0,
        Operator::Ge => compare_values(attr_value, &condition.value) >= 0,
        Operator::Lt => compare_values(attr_value, &condition.value) < 0,
        Operator::Le => compare_values(attr_value, &condition.value) <= 0,
        Operator::Contains => match (attr_value, &condition.value) {
            (AttrValue::List(arr), AttrValue::Str(val)) => {
                let probe = Scalar::Str(val.clone());
                list_contains(arr, &probe)
            },
            _ => false,
        },
        Operator::In => match &condition.value {
            AttrValue::List(arr) => match to_scalar(attr_value) {
                Some(s) => list_contains(arr, &s),
                None => false,
            },
            _ => false,
        },
        Operator::Regex => match (attr_value, &condition.value) {
            (AttrValue::Str(s), AttrValue::Str(p)) => contains(s.as_str(), p.as_str()),
            _ => false,
        },
    }
}

/// Named attribute values; the first entry of a name is the one read.
pub type Attributes = Vec<(String, AttrValue)>;

/// The value of the first attribute named `name`.
pub open spec fn lookup_attr(attrs: Seq<(String, AttrValue)>, name: Seq<char>) -> Option<AttrView>
    decreases attrs.len(),
{
    if attrs.len() == 0 {
        None
    } else if attrs[0].0@ == name {
        Some(attrs[0].1@)
    } else {
        lookup_attr(attrs.drop_first(), name)
    }
}

fn find_attr<'a>(attrs: &'a Attributes, name: &str) -> (r: Option<&'a AttrValue>)
    ensures
        match r {
            Some(v) => lookup_attr(attrs@, name@) == Some(v@),
            None => lookup_attr(attrs@, name@) is None,
        },
{
    let mut i: usize = 0;
    assert(attrs@.subrange(0, attrs@.len() as int) =~= attrs@);
    while i < attrs.len()
        invariant
            i <= attrs@.len(),
            lookup_attr(attrs@, name@) == lookup_attr(attrs@.subrange(i as int, attrs@.len() as int), name@),
        decreases attrs@.len() - i,
    {
        let ghost rest = attrs@.subrange(i as int, attrs@.len() as int);
        assert(rest[0] == attrs@[i as int]);
        assert(rest.drop_first() =~= attrs@.subrange(i + 1, attrs@.len() as int));
        if str_eq(attrs[i].0.as_str(), name) {
            return Some(&attrs[i].1);
        }
        i = i + 1;
    }
    assert(attrs@.subrange(i as int, attrs@.len() as int).len() == 0);
    None
}

/// Every condition names an attribute that is present and satisfies it.
pub open spec fn conditions_hold(conds: Seq<AttributeCondition>, attrs: Seq<(String, AttrValue)>) -> bool {
    forall|i: int|
        0 <= i < conds.len() ==> (lookup_attr(attrs, (#[trigger] conds[i]).attribute@) matches Some(a)
            && condition_holds(conds[i].operator, a, conds[i].value@))
}

pub fn evaluate_conditions(conditions: &Vec<AttributeCondition>, attributes: &Attributes) -> (r: bool)
    ensures
        r == conditions_hold(conditions@, attributes@),
{
    let mut i: usize = 0;
    while i < conditions.len()
        invariant
            i <= conditions@.len(),
            forall|j: int|
                0 <= j < i ==> (lookup_attr(attributes@, (#[trigger] conditions@[j]).attribute@) matches Some(a)
                    && condition_holds(conditions@[j].operator, a, conditions@[j].value@)),
        decreases conditions@.len() - i,
    {
        let c = &conditions[i];
        match find_attr(attributes, c.attribute.as_str()) {
            Some(v) => {
                if !evaluate_condition(c, v) {
                    return false;
                }
            },
            None => {
                return false;
            },
        }
        i = i + 1;
    }
    true
}

/// The conditions of an attribute-based rule and its effect.
pub struct AbacRule {
    pub subject_conditions: Vec<AttributeCondition>,
    pub resource_conditions: Vec<AttributeCondition>,
    pub action_conditions: Vec<AttributeCondition>,
    pub environment_conditions: Vec<AttributeCondition>,
    pub effect: Effect,
}

/// An attribute-based policy; a lower priority number is tried first.
pub struct AbacPolicy {
    pub id: String,
    pub name: String,
    pub description: String,
    pub rule: AbacRule,
    pub priority: u32,
    pub enabled: bool,
}

/// A role.
pub struct Role {
    pub id: String,
    pub name: String,
    pub description: String,
    pub level: u32,
}

/// A permission, named `resource_type:action`.
pub struct Permission {
    pub id: String,
    pub name: String,
    pub description: String,
    pub resource_type: String,
    pub action: String,
}

/// A request to authorize.
pub struct AuthorizationRequest {
    pub user_id: String,
    pub user_attributes: Attributes,
    pub resource_id: String,
    pub resource_attributes: Attributes,
    pub action: String,
    pub environment_attributes: Attributes,
}

/// The answer to an authorization request.
pub struct AuthorizationResponse {
    pub permitted: bool,
    pub effect: Effect,
    pub denial_reason: Option<String>,
    pub matched_policy_ids: Vec<String>,
}

/// A policy matches a request when all four groups of conditions hold.
pub open spec fn policy_matches(p: AbacPolicy, req: AuthorizationRequest) -> bool {
    &&& conditions_hold(p.rule.subject_conditions@, req.user_attributes@)
    &&& conditions_hold(p.rule.resource_conditions@, req.resource_attributes@)
    &&& action_conditions_hold(p.rule.action_conditions@, req.action@)
    &&& conditions_hold(p.rule.environment_conditions@, req.environment_attributes@)
}

/// The action conditions hold against the single attribute `action` = the requested action.
pub open spec fn action_conditions_hold(conds: Seq<AttributeCondition>, action: Seq<char>) -> bool {
    forall|i: int|
        0 <= i < conds.len() ==> ((#[trigger] conds[i]).attribute@ == "action"@ && condition_holds(
            conds[i].operator,
            AttrView::Str(action),
            conds[i].value@,
        ))
}

} // verus!

verus! {

/// A list of strings as plain characters.
pub open spec fn strs(v: Seq<String>) -> Seq<Seq<char>> {
    v.map_values(|s: String| s@)
}

/// `rs` without every occurrence of `x`, the rest in order.
pub open spec fn without(rs: Seq<Seq<char>>, x: Seq<char>) -> Seq<Seq<char>>
    decreases rs.len(),
{
    if rs.len() == 0 {
        seq![]
    } else {
        without(rs.drop_last(), x) + if rs.last() == x {
            seq![]
        } else {
            seq![rs.last()]
        }
    }
}

/// The first entry whose key is `key`.
pub open spec fn is_first_entry(entries: Seq<(String, Vec<String>)>, key: Seq<char>, i: int) -> bool {
    0 <= i < entries.len() && entries[i].0@ == key && forall|j: int| 0 <= j < i ==> entries[j].0@ != key
}

/// No entry has key `key`.
pub open spec fn no_entry(entries: Seq<(String, Vec<String>)>, key: Seq<char>) -> bool {
    forall|j: int| 0 <= j < entries.len() ==> entries[j].0@ != key
}

pub fn find_entry(entries: &Vec<(String, Vec<String>)>, key: &str) -> (r: Option<usize>)
    ensures
        match r {
            Some(i) => is_first_entry(entries@, key@, i as int),
            None => no_entry(entries@, key@),
        },
{
    let mut i: usize = 0;
    while i < entries.len()
        invariant
            i <= entries@.len(),
            forall|j: int| 0 <= j < i ==> entries@[j].0@ != key@,
        decreases entries@.len() - i,
    {
        if str_eq(entries[i].0.as_str(), key) {
            return Some(i);
        }
        i = i + 1;
    }
    None
}

/// The values stored under `key`, if there is an entry.
pub open spec fn entry_values(entries: Seq<(String, Vec<String>)>, key: Seq<char>) -> Option<Seq<Seq<char>>> {
    if exists|i: int| is_first_entry(entries, key, i) {
        Some(strs(entries[choose|i: int| is_first_entry(entries, key, i)].1@))
    } else {
        None
    }
}

proof fn lemma_first_entry_unique(entries: Seq<(String, Vec<String>)>, key: Seq<char>, i: int, k: int)
    requires
        is_first_entry(entries, key, i),
        is_first_entry(entries, key, k),
    ensures
        i == k,
{
}

proof fn lemma_entry_values(entries: Seq<(String, Vec<String>)>, key: Seq<char>, i: int)
    requires
        is_first_entry(entries, key, i),
    ensures
        entry_values(entries, key) == Some(strs(entries[i].1@)),
{
    let k = choose|k: int| is_first_entry(entries, key, k);
    lemma_first_entry_unique(entries, key, i, k);
}

fn strings_contain(v: &Vec<String>, s: &str) -> (r: bool)
    ensures
        r == strs(v@).contains(s@),
{
    let mut i: usize = 0;
    while i < v.len()
        invariant
            i <= v@.len(),
            forall|j: int| 0 <= j < i ==> v@[j]@ != s@,
        decreases v@.len() - i,
    {
        if str_eq(v[i].as_str(), s) {
            assert(strs(v@)[i as int] == s@);
            return true;
        }
        i = i + 1;
    }
    assert forall|j: int| 0 <= j < strs(v@).len() implies strs(v@)[j] != s@ by {}
    false
}

/// Roles, permissions and the maps between users, roles and permissions,
/// plus the attribute-based policies.
pub struct PermissionConfig {
    pub roles: Vec<Role>,
    pub permissions: Vec<Permission>,
    pub role_permissions: Vec<(String, Vec<String>)>,
    pub user_roles: Vec<(String, Vec<String>)>,
    pub abac_policies: Vec<AbacPolicy>,
}

fn role(id: &str, name: &str, description: &str, level: u32) -> (r: Role)
    ensures
        r.id@ == id@,
        r.level == level,
{
    Role { id: owned(id), name: owned(name), description: owned(description), level }
}

fn permission(resource: &str, action: &str, description: &str) -> (p: Permission)
    ensures
        p.id@ == resource@ + ":"@ + action@,
        p.resource_type@ == resource@,
        p.action@ == action@,
{
    let id = cat(cat(resource, ":").as_str(), action);
    Permission { id: id.clone(), name: id, description: owned(description), resource_type: owned(resource), action: owned(action) }
}

fn string_list(items: &[&str]) -> (v: Vec<String>)
    ensures
        v@.len() == items@.len(),
        forall|i: int| 0 <= i < items@.len() ==> (#[trigger] v@[i])@ == items@[i]@,
{
    let mut v: Vec<String> = Vec::new();
    let mut i: usize = 0;
    while i < items.len()
        invariant
            i <= items@.len(),
            v@.len() == i,
            forall|j: int| 0 <= j < i ==> (#[trigger] v@[j])@ == items@[j]@,
        decreases items@.len() - i,
    {
        v.push(owned(items[i]));
        i = i + 1;
    }
    v
}

/// The permissions of the default configuration.
pub open spec fn default_permission_ids() -> Seq<Seq<char>> {
    seq![
        "batch:execute"@,
        "batch:read"@,
        "transaction:execute"@,
        "transaction:read"@,
        "admin:manage"@,
        "dev:deploy"@,
        "test:execute"@,
    ]
}

impl PermissionConfig {
    /// The default roles (admin, developer, tester, user), the default
    /// permissions, and which role holds which permission; no users, no policies.
    pub fn new() -> (c: Self)
        ensures
            c.roles@.len() == 4,
            c.permissions@.len() == 7,
            c.user_roles@.len() == 0,
            c.abac_policies@.len() == 0,
            c.role_permissions@.len() == 4,
            c.role_permissions@[0].0@ == "admin"@ && strs(c.role_permissions@[0].1@) == default_permission_ids(),
            c.role_permissions@[1].0@ == "developer"@ && strs(c.role_permissions@[1].1@) == seq![
                "batch:execute"@,
                "batch:read"@,
                "transaction:execute"@,
                "transaction:read"@,
                "dev:deploy"@,
                "test:execute"@,
            ],
            c.role_permissions@[2].0@ == "tester"@ && strs(c.role_permissions@[2].1@) == seq![
                "batch:read"@,
                "transaction:read"@,
                "test:execute"@,
            ],
            c.role_permissions@[3].0@ == "user"@ && strs(c.role_permissions@[3].1@) == seq![
                "batch:execute"@,
                "batch:read"@,
                "transaction:execute"@,
                "transaction:read"@,
            ],
    {
        let mut roles: Vec<Role> = Vec::new();
        roles.push(role("admin", "Administrator", "系统管理员，拥有所有权限", 100));
        roles.push(role("developer", "Developer", "开发者，拥有开发和测试权限", 50));
        roles.push(role("tester", "Tester", "测试者，拥有测试权限", 30));
        roles.push(role("user", "User", "普通用户，拥有基本使用权限", 10));
        let mut permissions: Vec<Permission> = Vec::new();
        permissions.push(permission("batch", "execute", "执行 Batch 指令"));
        permissions.push(permission("batch", "read", "读取 Batch 结果"));
        permissions.push(permission("transaction", "execute", "执行 Transaction"));
        permissions.push(permission("transaction", "read", "读取 Transaction 状态"));
        permissions.push(permission("admin", "manage", "管理权限"));
        permissions.push(permission("dev", "deploy", "部署权限"));
        permissions.push(permission("test", "execute", "执行测试"));
        let admin = string_list(
            &["batch:execute", "batch:read", "transaction:execute", "transaction:read", "admin:manage", "dev:deploy", "test:execute"],
        );
        let developer = string_list(
            &["batch:execute", "batch:read", "transaction:execute", "transaction:read", "dev:deploy", "test:execute"],
        );
        let tester = string_list(&["batch:read", "transaction:read", "test:execute"]);
        let user = string_list(&["batch:execute", "batch:read", "transaction:execute", "transaction:read"]);
        assert(strs(admin@) =~= default_permission_ids());
        assert(strs(developer@) =~= seq![
            "batch:execute"@,
            "batch:read"@,
            "transaction:execute"@,
            "transaction:read"@,
            "dev:deploy"@,
            "test:execute"@,
        ]);
        assert(strs(tester@) =~= seq!["batch:read"@, "transaction:read"@, "test:execute"@]);
        assert(strs(user@) =~= seq!["batch:execute"@, "batch:read"@, "transaction:execute"@, "transaction:read"@]);
        let mut role_permissions: Vec<(String, Vec<String>)> = Vec::new();
        role_permissions.push((owned("admin"), admin));
        role_permissions.push((owned("developer"), developer));
        role_permissions.push((owned("tester"), tester));
        role_permissions.push((owned("user"), user));
        PermissionConfig { roles, permissions, role_permissions, user_roles: Vec::new(), abac_policies: Vec::new() }
    }
}

/// The policy that decides a request: among the enabled matching policies
/// of the first `n`, the lowest priority number, the earliest on a tie.
pub open spec fn abac_choice(ps: Seq<AbacPolicy>, req: AuthorizationRequest, n: int) -> Option<int>
    decreases n,
{
    if n <= 0 {
        None
    } else {
        let prev = abac_choice(ps, req, n - 1);
        if ps[n - 1].enabled && policy_matches(ps[n - 1], req) && (prev is None || ps[n - 1].priority
            < ps[prev->0].priority) {
            Some(n - 1)
        } else {
            prev
        }
    }
}

/// The permission a request asks for: `resource:action`.
pub open spec fn permission_id(req: AuthorizationRequest) -> Seq<char> {
    req.resource_id@ + ":"@ + req.action@
}

/// The first of the user's roles, at or after `k`, that holds `perm`.
pub open spec fn granting_role(roles: Seq<Seq<char>>, rp: Seq<(String, Vec<String>)>, perm: Seq<char>, k: int) -> Option<Seq<char>>
    decreases roles.len() - k,
{
    if k < 0 || k >= roles.len() {
        None
    } else if entry_values(rp, roles[k]) matches Some(ps) && ps.contains(perm) {
        Some(roles[k])
    } else {
        granting_role(roles, rp, perm, k + 1)
    }
}

/// What an authorizer decides of a request, as (permitted, effect, matched id, denial reason).
pub open spec fn decision(cfg: PermissionConfig, req: AuthorizationRequest) -> (bool, Effect, Option<Seq<char>>, Option<Seq<char>>) {
    match abac_choice(cfg.abac_policies@, req, cfg.abac_policies@.len() as int) {
        Some(i) => {
            let p = cfg.abac_policies@[i];
            (
                p.rule.effect == Effect::Permit,
                p.rule.effect,
                Some(p.id@),
                if p.rule.effect == Effect::Deny { Some("Denied by policy: "@ + p.name@) } else { None },
            )
        },
        None => match entry_values(cfg.user_roles@, req.user_id@) {
            None => (false, Effect::Deny, None, Some("User "@ + req.user_id@ + " has no roles"@)),
            Some(roles) => match granting_role(roles, cfg.role_permissions@, permission_id(req), 0) {
                Some(r) => (true, Effect::Permit, Some("role:"@ + r), None),
                None => (
                    false,
                    Effect::Deny,
                    None,
                    Some("User "@ + req.user_id@ + " has no permission for "@ + permission_id(req) + " "@),
                ),
            },
        },
    }
}

/// A response matches a decision.
pub open spec fn response_is(r: AuthorizationResponse, d: (bool, Effect, Option<Seq<char>>, Option<Seq<char>>)) -> bool {
    &&& r.permitted == d.0
    &&& r.effect == d.1
    &&& match d.2 {
        Some(id) => strs(r.matched_policy_ids@) == seq![id],
        None => r.matched_policy_ids@.len() == 0,
    }
    &&& match d.3 {
        Some(m) => r.denial_reason matches Some(s) && s@ == m,
        None => r.denial_reason is None,
    }
}

/// One logged authorization decision.
pub struct AuthorizationDecision {
    pub user_id: String,
    pub resource_id: String,
    pub action: String,
    pub permitted: bool,
}

/// Counts of logged decisions.
pub struct AuthorizationStats {
    pub total_decisions: usize,
    pub permit_count: usize,
    pub deny_count: usize,
}

/// How many logged decisions permitted.
pub open spec fn permit_count(log: Seq<AuthorizationDecision>) -> nat
    decreases log.len(),
{
    if log.len() == 0 {
        0
    } else {
        permit_count(log.drop_last()) + if log.last().permitted { 1nat } else { 0nat }
    }
}

/// The most decisions the log keeps.
pub const DECISION_LOG_LIMIT: usize = 1000;

/// Decides requests with attribute-based policies first and roles second,
/// keeping a log of the last decisions.
pub struct RbacAbacAuthorizer {
    pub config: PermissionConfig,
    pub decision_log: Vec<AuthorizationDecision>,
}

fn response(permitted: bool, effect: Effect, matched: Option<String>, denial: Option<String>) -> (r: AuthorizationResponse)
    ensures
        r.permitted == permitted,
        r.effect == effect,
        match matched {
            Some(id) => strs(r.matched_policy_ids@) == seq![id@],
            None => r.matched_policy_ids@.len() == 0,
        },
        r.denial_reason == denial,
{
    let mut ids: Vec<String> = Vec::new();
    match matched {
        Some(id) => {
            ids.push(id);
            assert(strs(ids@) =~= seq![ids@[0]@]);
        },
        None => {},
    }
    AuthorizationResponse { permitted, effect, denial_reason: denial, matched_policy_ids: ids }
}

impl RbacAbacAuthorizer {
    pub fn new(config: PermissionConfig) -> (a: Self)
        ensures
            a.config == config,
            a.decision_log@.len() == 0,
    {
        RbacAbacAuthorizer { config, decision_log: Vec::new() }
    }

    pub fn evaluate_policy(&self, policy: &AbacPolicy, request: &AuthorizationRequest) -> (b: bool)
        ensures
            b == policy_matches(*policy, *request),
    {
        let subject_match = evaluate_conditions(&policy.rule.subject_conditions, &request.user_attributes);
        let resource_match = evaluate_conditions(&policy.rule.resource_conditions, &request.resource_attributes);
        let mut action_attrs: Attributes = Vec::new();
        action_attrs.push((owned("action"), AttrValue::Str(request.action.clone())));
        let action_match = evaluate_conditions(&policy.rule.action_conditions, &action_attrs);
        proof {
            reveal_with_fuel(lookup_attr, 2);
            assert(action_attrs@[0].0@ == "action"@);
            assert(lookup_attr(action_attrs@, "action"@) == Some(AttrView::Str(request.action@)));
            assert forall|name: Seq<char>| name != "action"@ implies lookup_attr(action_attrs@, name) is None by {
                assert(action_attrs@.drop_first().len() == 0);
            }
            if action_match {
                assert forall|i: int| 0 <= i < policy.rule.action_conditions@.len() implies ((
                #[trigger] policy.rule.action_conditions@[i]).attribute@ == "action"@ && condition_holds(
                    policy.rule.action_conditions@[i].operator,
                    AttrView::Str(request.action@),
                    policy.rule.action_conditions@[i].value@,
                )) by {
                    let n = policy.rule.action_conditions@[i].attribute@;
                    if n != "action"@ {
                        assert(lookup_attr(action_attrs@, n) is None);
                    }
                }
            } else {
                let i = choose|i: int|
                    0 <= i < policy.rule.action_conditions@.len() && !(lookup_attr(
                        action_attrs@,
                        (#[trigger] policy.rule.action_conditions@[i]).attribute@,
                    ) matches Some(a) && condition_holds(
                        policy.rule.action_conditions@[i].operator,
                        a,
                        policy.rule.action_conditions@[i].value@,
                    ));
                let n = policy.rule.action_conditions@[i].attribute@;
                if n != "action"@ {
                    assert(lookup_attr(action_attrs@, n) is None);
                }
            }
        }
        let environment_match = evaluate_conditions(
            &policy.rule.environment_conditions,
            &request.environment_attributes,
        );
        subject_match && resource_match && action_match && environment_match
    }

    /// The response of the deciding attribute-based policy, if one matches.
    pub fn check_abac_policies(&self, request: &AuthorizationRequest) -> (r: Option<AuthorizationResponse>)
        ensures
            match abac_choice(self.config.abac_policies@, *request, self.config.abac_policies@.len() as int) {
                None => r is None,
                Some(_) => r matches Some(resp) && response_is(resp, decision(self.config, *request)),
            },
    {
        let ps = &self.config.abac_policies;
        let mut best: Option<usize> = None;
        let mut i: usize = 0;
        while i < ps.len()
            invariant
                i <= ps@.len(),
                ps@ == self.config.abac_policies@,
                match best {
                    Some(b) => abac_choice(ps@, *request, i as int) == Some(b as int) && b < i,
                    None => abac_choice(ps@, *request, i as int) is None,
                },
            decreases ps@.len() - i,
        {
            let p = &ps[i];
            if p.enabled && self.evaluate_policy(p, request) {
                let better = match best {
                    None => true,
                    Some(b) => p.priority < ps[b].priority,
                };
                if better {
                    best = Some(i);
                }
            }
            i = i + 1;
        }
        match best {
            None => None,
            Some(b) => {
                let p = &ps[b];
                let permitted = p.rule.effect == Effect::Permit;
                let denial = if p.rule.effect == Effect::Deny {
                    Some(cat("Denied by policy: ", p.name.as_str()))
                } else {
                    None
                };
                Some(response(permitted, p.rule.effect, Some(p.id.clone()), denial))
            },
        }
    }

    /// The role-based answer: permitted when one of the user's roles holds `resource:action`.
    pub fn check_rbac_permissions(&self, request: &AuthorizationRequest) -> (r: AuthorizationResponse)
        requires
            abac_choice(self.config.abac_policies@, *request, self.config.abac_policies@.len() as int) is None,
        ensures
            response_is(r, decision(self.config, *request)),
    {
        let ur = find_entry(&self.config.user_roles, request.user_id.as_str());
        match ur {
            None => {
                proof {
                    assert(!exists|i: int| is_first_entry(self.config.user_roles@, request.user_id@, i));
                }
                let a = cat("User ", request.user_id.as_str());
                return response(false, Effect::Deny, None, Some(cat(a.as_str(), " has no roles")));
            },
            Some(u) => {
                proof {
                    lemma_entry_values(self.config.user_roles@, request.user_id@, u as int);
                }
                let roles = &self.config.user_roles[u].1;
                let perm = cat(cat(request.resource_id.as_str(), ":").as_str(), request.action.as_str());
                assert(perm@ == permission_id(*request));
                let ghost rs = strs(roles@);
                let mut k: usize = 0;
                while k < roles.len()
                    invariant
                        k <= roles@.len(),
                        rs == strs(roles@),
                        entry_values(self.config.user_roles@, request.user_id@) == Some(rs),
                        abac_choice(self.config.abac_policies@, *request, self.config.abac_policies@.len() as int) is None,
                        perm@ == permission_id(*request),
                        granting_role(rs, self.config.role_permissions@, perm@, 0) == granting_role(
                            rs,
                            self.config.role_permissions@,
                            perm@,
                            k as int,
                        ),
                    decreases roles@.len() - k,
                {
                    let role_id = &roles[k];
                    match find_entry(&self.config.role_permissions, role_id.as_str()) {
                        Some(e) => {
                            proof {
                                lemma_entry_values(self.config.role_permissions@, role_id@, e as int);
                            }
                            if strings_contain(&self.config.role_permissions[e].1, perm.as_str()) {
                                assert(rs[k as int] == role_id@);
                                assert(granting_role(rs, self.config.role_permissions@, perm@, k as int) == Some(role_id@));
                                return response(true, Effect::Permit, Some(cat("role:", role_id.as_str())), None);
                            }
                        },
                        None => {
                            proof {
                                assert(!exists|i: int| is_first_entry(self.config.role_permissions@, role_id@, i));
                            }
                        },
                    }
                    k = k + 1;
                }
                let a = cat("User ", request.user_id.as_str());
                let b = cat(a.as_str(), " has no permission for ");
                let c = cat(b.as_str(), perm.as_str());
                response(false, Effect::Deny, None, Some(cat(c.as_str(), " ")))
            },
        }
    }

    fn log_decision(&mut self, request: &AuthorizationRequest, permitted: bool)
        ensures
            final(self).config == old(self).config,
            final(self).decision_log@.len() == if old(self).decision_log@.len() + 1 > DECISION_LOG_LIMIT {
                old(self).decision_log@.len()
            } else {
                old(self).decision_log@.len() + 1
            },
            final(self).decision_log@.last().permitted == permitted,
    {
        self.decision_log.push(
            AuthorizationDecision {
                user_id: request.user_id.clone(),
                resource_id: request.resource_id.clone(),
                action: request.action.clone(),
                permitted,
            },
        );
        if self.decision_log.len() > DECISION_LOG_LIMIT {
            self.decision_log.remove(0);
        }
    }

    /// Decides a request and logs the decision.
    pub fn authorize(&mut self, request: &AuthorizationRequest) -> (r: AuthorizationResponse)
        ensures
            response_is(r, decision(old(self).config, *request)),
            final(self).config == old(self).config,
            final(self).decision_log@.last().permitted == r.permitted,
    {
        match self.check_abac_policies(request) {
            Some(resp) => {
                self.log_decision(request, resp.permitted);
                resp
            },
            None => {
                let resp = self.check_rbac_permissions(request);
                self.log_decision(request, resp.permitted);
                resp
            },
        }
    }

    /// Takes the role `role_id` away from `user_id`; a user without roles is
    /// left as it is.
    pub fn remove_user_role(&mut self, user_id: &str, role_id: &str)
        ensures
            final(self).config.roles == old(self).config.roles,
            final(self).config.role_permissions == old(self).config.role_permissions,
            final(self).config.abac_policies == old(self).config.abac_policies,
            final(self).decision_log == old(self).decision_log,
            forall|u: Seq<char>| u != user_id@ ==> entry_values(final(self).config.user_roles@, u) == entry_values(old(self).config.user_roles@, u),
            match entry_values(old(self).config.user_roles@, user_id@) {
                Some(rs) => entry_values(final(self).config.user_roles@, user_id@) == Some(without(rs, role_id@)),
                None => entry_values(final(self).config.user_roles@, user_id@) is None,
            },
    {
        match find_entry(&self.config.user_roles, user_id) {
            Some(u) => {
                proof {
                    lemma_entry_values(old(self).config.user_roles@, user_id@, u as int);
                }
                let mut entry = (String::new(), Vec::new());
                std::mem::swap(&mut entry, &mut self.config.user_roles[u]);
                let ghost rs = strs(entry.1@);
                let mut kept: Vec<String> = Vec::new();
                let mut i: usize = 0;
                while i < entry.1.len()
                    invariant
                        i <= entry.1@.len(),
                        rs == strs(entry.1@),
                        strs(kept@) == without(rs.take(i as int), role_id@),
                    decreases entry.1@.len() - i,
                {
                    proof {
                        assert(rs.take(i + 1).drop_last() =~= rs.take(i as int));
                        assert(rs.take(i + 1).last() == rs[i as int]);
                    }
                    if !str_eq(entry.1[i].as_str(), role_id) {
                        let ghost before = strs(kept@);
                        kept.push(owned(entry.1[i].as_str()));
                        assert(strs(kept@) =~= before.push(rs[i as int]));
                    }
                    i = i + 1;
                }
                assert(rs.take(rs.len() as int) =~= rs);
                entry.1 = kept;
                self.config.user_roles.set(u, entry);
                proof {
                    let olds = old(self).config.user_roles@;
                    let news = self.config.user_roles@;
                    assert(is_first_entry(news, user_id@, u as int));
                    lemma_entry_values(news, user_id@, u as int);
                    lemma_other_keys_unchanged(olds, news, u as int);
                }
            },
            None => {},
        }
    }

    /// Gives `user_id` the role `role_id`, once.
    pub fn add_user_role(&mut self, user_id: &str, role_id: &str)
        ensures
            final(self).config.roles == old(self).config.roles,
            final(self).config.role_permissions == old(self).config.role_permissions,
            final(self).config.abac_policies == old(self).config.abac_policies,
            final(self).decision_log == old(self).decision_log,
            entry_values(final(self).config.user_roles@, user_id@) matches Some(rs) && rs.contains(role_id@),
            forall|u: Seq<char>| u != user_id@ ==> entry_values(final(self).config.user_roles@, u) == entry_values(old(self).config.user_roles@, u),
            entry_values(old(self).config.user_roles@, user_id@) matches Some(rs) ==> (if rs.contains(role_id@) {
                entry_values(final(self).config.user_roles@, user_id@) == Some(rs)
            } else {
                entry_values(final(self).config.user_roles@, user_id@) == Some(rs.push(role_id@))
            }),
            entry_values(old(self).config.user_roles@, user_id@) is None ==> entry_values(final(self).config.user_roles@, user_id@) == Some(seq![role_id@]),
    {
        match find_entry(&self.config.user_roles, user_id) {
            Some(u) => {
                proof {
                    lemma_entry_values(old(self).config.user_roles@, user_id@, u as int);
                }
                if !strings_contain(&self.config.user_roles[u].1, role_id) {
                    let mut entry = (String::new(), Vec::new());
                    std::mem::swap(&mut entry, &mut self.config.user_roles[u]);
                    entry.1.push(owned(role_id));
                    self.config.user_roles.set(u, entry);
                    proof {
                        let olds = old(self).config.user_roles@;
                        let news = self.config.user_roles@;
                        assert(is_first_entry(news, user_id@, u as int));
                        lemma_entry_values(news, user_id@, u as int);
                        assert(strs(news[u as int].1@) =~= strs(olds[u as int].1@).push(role_id@));
                        assert(strs(news[u as int].1@).contains(role_id@)) by {
                            assert(strs(news[u as int].1@).last() == role_id@);
                        }
                        lemma_other_keys_unchanged(olds, news, u as int);
                    }
                } else {
                    proof {
                        assert(strs(self.config.user_roles@[u as int].1@).contains(role_id@));
                    }
                }
            },
            None => {
                let mut roles: Vec<String> = Vec::new();
                roles.push(owned(role_id));
                self.config.user_roles.push((owned(user_id), roles));
                proof {
                    let olds = old(self).config.user_roles@;
                    let news = self.config.user_roles@;
                    let n = olds.len() as int;
                    assert(is_first_entry(news, user_id@, n));
                    lemma_entry_values(news, user_id@, n);
                    assert(strs(news[n].1@) =~= seq![role_id@]);
                    assert(strs(news[n].1@)[0] == role_id@);
                    assert(strs(news[n].1@).contains(role_id@));
                    assert forall|u: Seq<char>| u != user_id@ implies entry_values(news, u) == entry_values(olds, u) by {
                        if exists|i: int| is_first_entry(olds, u, i) {
                            let i = choose|i: int| is_first_entry(olds, u, i);
                            lemma_entry_values(olds, u, i);
                            assert(is_first_entry(news, u, i));
                            lemma_entry_values(news, u, i);
                        } else {
                            assert forall|i: int| !is_first_entry(news, u, i) by {
                                if is_first_entry(news, u, i) {
                                    if i == n {
                                        assert(news[n].0@ == user_id@);
                                    } else {
                                        assert(news[i] == olds[i]);
                                        assert forall|j: int| 0 <= j < i implies olds[j].0@ != u by {
                                            assert(news[j] == olds[j]);
                                        }
                                        assert(is_first_entry(olds, u, i));
                                    }
                                }
                            }
                        }
                    }
                }
            },
        }
    }

    /// Adds an attribute-based policy.
    pub fn add_abac_policy(&mut self, policy: AbacPolicy)
        ensures
            final(self).config.abac_policies@ == old(self).config.abac_policies@.push(policy),
            final(self).config.user_roles == old(self).config.user_roles,
            final(self).config.role_permissions == old(self).config.role_permissions,
    {
        self.config.abac_policies.push(policy);
    }

    /// Counts of the logged decisions.
    pub fn get_stats(&self) -> (s: AuthorizationStats)
        ensures
            s.total_decisions == self.decision_log@.len(),
            s.permit_count == permit_count(self.decision_log@),
            s.deny_count == s.total_decisions - s.permit_count,
    {
        let mut permits: usize = 0;
        let mut i: usize = 0;
        while i < self.decision_log.len()
            invariant
                i <= self.decision_log@.len(),
                permits == permit_count(self.decision_log@.subrange(0, i as int)),
                permits <= i,
            decreases self.decision_log@.len() - i,
        {
            assert(self.decision_log@.subrange(0, i + 1).drop_last() =~= self.decision_log@.subrange(0, i as int));
            if self.decision_log[i].permitted {
                permits = permits + 1;
            }
            i = i + 1;
        }
        assert(self.decision_log@.subrange(0, self.decision_log@.len() as int) =~= self.decision_log@);
        AuthorizationStats {
            total_decisions: self.decision_log.len(),
            permit_count: permits,
            deny_count: self.decision_log.len() - permits,
        }
    }
}

proof fn lemma_other_keys_unchanged(olds: Seq<(String, Vec<String>)>, news: Seq<(String, Vec<String>)>, u: int)
    requires
        0 <= u < olds.len(),
        news.len() == olds.len(),
        news[u].0@ == olds[u].0@,
        forall|j: int| 0 <= j < olds.len() && j != u ==> news[j] == olds[j],
    ensures
        forall|k: Seq<char>| k != olds[u].0@ ==> entry_values(news, k) == entry_values(olds, k),
{
    assert forall|k: Seq<char>| k != olds[u].0@ implies entry_values(news, k) == entry_values(olds, k) by {
        if exists|i: int| is_first_entry(olds, k, i) {
            let i = choose|i: int| is_first_entry(olds, k, i);
            lemma_entry_values(olds, k, i);
            assert(is_first_entry(news, k, i));
            lemma_entry_values(news, k, i);
        } else {
            assert forall|i: int| !is_first_entry(news, k, i) by {
                if is_first_entry(news, k, i) {
                    assert(is_first_entry(olds, k, i));
                }
            }
        }
    }
}

/// A user with no roles and no matching policy is refused.
pub proof fn law_no_roles_no_access(cfg: PermissionConfig, req: AuthorizationRequest)
    requires
        abac_choice(cfg.abac_policies@, req, cfg.abac_policies@.len() as int) is None,
        no_entry(cfg.user_roles@, req.user_id@),
    ensures
        !decision(cfg, req).0,
        decision(cfg, req).1 == Effect::Deny,
{
    assert(!exists|i: int| is_first_entry(cfg.user_roles@, req.user_id@, i));
}

} // verus!
