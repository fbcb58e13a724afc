//! How roles are asked to work: the identity each role is given, the message
//! sent to an agent, where the artifact sits in an agent's reply, and a mock
//! agent that answers without running anything.

use vstd::prelude::*;
use crate::error::EngineError;
use crate::json::{Json, JsonNumber, JsonView, NumberView, json_view, jget, jstr};
use crate::model::{Role, role_key};
use crate::text::{cat, decimal, decimal_string, ascii_upper, to_ascii_uppercase, to_ascii_lowercase, lower};
use crate::deliverables::{target_deliverable, default_deliverable_path};
use crate::schema::{parsed_json, parse_json_text};
use vstd::utf8::encode_utf8;

verus! {

/// The identity a role is given at the start of its message.
pub open spec fn role_identity(role: Role) -> Seq<char> {
    match role {
        Role::PM => "你是 Phase01 产品经理（PM）。具备全角色共享的 PMP 基础项目管理技能，并具备更高阶 PfMP+PgMP 治理技能与 Gate 指标化治理能力。聚焦范围冻结、非目标、Gate 指标映射、跨项目依赖统筹与风险收敛。"@,
        Role::Dev => "你是 Phase01 架构/开发角色。具备 PMP 基础项目管理技能、Rust 核心工程能力（所有权/借用、Result、并发异步、serde 契约）和 Platform 工程能力（TypeScript/Node.js、gRPC/REST 契约联调）。聚焦 ADR、接口契约、失败路径与回滚路径，不越权提交。"@,
        Role::QA => "你是 Phase01 QA。具备 PMP 基础项目管理技能、回放一致性与契约测试能力（ExecuteRequest/ExecutionResult/VerifyResult），以及性能韧性测试能力（k6/Locust、Chaos 注入与恢复验证）。聚焦测试矩阵、样本策略与指标证据四元组，样本不足不可给通过结论。"@,
        Role::Security => "你是 Phase01 安全工程师。具备 PMP 基础项目管理技能、身份与授权能力（OIDC/OAuth2、RBAC+ABAC）和运行/供应链安全能力（seccomp/apparmor、Vault/KMS、Manifest 签名校验、SAST/SCA）。聚焦提交闸门红线、非确定性风险与阻断覆盖结论。"@,
        Role::SRE => "你是 Phase01 SRE/项目经理执行角色。具备 PMP 基础项目管理技能，并具备平台与运维工程能力（Linux、Docker、Kubernetes、CI/CD/GitOps、Prometheus+Grafana 可观测、告警与故障响应）及 Rust 服务运维诊断能力（发布健康检查、panic/backtrace 排障、性能与资源异常定位）。聚焦执行看板、关键路径、阻塞项与开工条件。"@,
        Role::Blackboard => "你是 Blackboard Agent，仅处理信息汇总与事件中继，不输出业务结论。"@,
    }
}

/// The identity a role is given at the start of its message.
pub fn phase01_role_identity_prompt(role: &Role) -> (p: &'static str)
    ensures
        p@ == role_identity(*role),
{
    match role {
        Role::PM => "你是 Phase01 产品经理（PM）。具备全角色共享的 PMP 基础项目管理技能，并具备更高阶 PfMP+PgMP 治理技能与 Gate 指标化治理能力。聚焦范围冻结、非目标、Gate 指标映射、跨项目依赖统筹与风险收敛。",
        Role::Dev => "你是 Phase01 架构/开发角色。具备 PMP 基础项目管理技能、Rust 核心工程能力（所有权/借用、Result、并发异步、serde 契约）和 Platform 工程能力（TypeScript/Node.js、gRPC/REST 契约联调）。聚焦 ADR、接口契约、失败路径与回滚路径，不越权提交。",
        Role::QA => "你是 Phase01 QA。具备 PMP 基础项目管理技能、回放一致性与契约测试能力（ExecuteRequest/ExecutionResult/VerifyResult），以及性能韧性测试能力（k6/Locust、Chaos 注入与恢复验证）。聚焦测试矩阵、样本策略与指标证据四元组，样本不足不可给通过结论。",
        Role::Security => "你是 Phase01 安全工程师。具备 PMP 基础项目管理技能、身份与授权能力（OIDC/OAuth2、RBAC+ABAC）和运行/供应链安全能力（seccomp/apparmor、Vault/KMS、Manifest 签名校验、SAST/SCA）。聚焦提交闸门红线、非确定性风险与阻断覆盖结论。",
        Role::SRE => "你是 Phase01 SRE/项目经理执行角色。具备 PMP 基础项目管理技能，并具备平台与运维工程能力（Linux、Docker、Kubernetes、CI/CD/GitOps、Prometheus+Grafana 可观测、告警与故障响应）及 Rust 服务运维诊断能力（发布健康检查、panic/backtrace 排障、性能与资源异常定位）。聚焦执行看板、关键路径、阻塞项与开工条件。",
        Role::Blackboard => "你是 Blackboard Agent，仅处理信息汇总与事件中继，不输出业务结论。",
    }
}

/// The message sent to a role's agent: its identity, the release, the task,
/// and the rules its reply must follow.
pub open spec fn agent_message_spec(role: Role, prompt: Seq<char>, release_id: Seq<char>) -> Seq<char> {
    role_identity(role) + "\n\nrelease_id="@ + release_id + "\n任务="@ + prompt + "\n\n输出要求：\n1) 仅输出一个 JSON 对象，不允许 markdown 或额外说明。\n2) 字段必须包含：role, release_id, decision, summary, next_role, evidence, skills_applied, risk_controls, evidence_refs。\n3) decision 仅允许 approved/rejected。\n4) evidence 必须包含 metric_value, window, sample_size, source。\n5) skills_applied 必须为非空字符串数组，列出本次执行使用的技能。\n6) risk_controls 必须为非空字符串数组，列出本次风险控制措施。\n7) evidence_refs 必须为对象，至少包含 skill_evidence 与 risk_evidence 字段。\n8) next_role 允许为 null。\n9) 必须提供 deliverables 数组，每项包含 path 与 content 字段，用于落地交付物文件。\n10) path 必须是相对路径（例如 phase1_week1_adr_v1.md），content 必须是完整 markdown 文本。"@
}

/// Builds the message sent to a role's agent.
pub fn agent_message(role: &Role, prompt: &str, release_id: &str) -> (m: String)
    ensures
        m@ == agent_message_spec(*role, prompt@, release_id@),
{
    let a = cat(phase01_role_identity_prompt(role), "\n\nrelease_id=");
    let b = cat(a.as_str(), release_id);
    let c = cat(b.as_str(), "\n任务=");
    let d = cat(c.as_str(), prompt);
    cat(d.as_str(), "\n\n输出要求：\n1) 仅输出一个 JSON 对象，不允许 markdown 或额外说明。\n2) 字段必须包含：role, release_id, decision, summary, next_role, evidence, skills_applied, risk_controls, evidence_refs。\n3) decision 仅允许 approved/rejected。\n4) evidence 必须包含 metric_value, window, sample_size, source。\n5) skills_applied 必须为非空字符串数组，列出本次执行使用的技能。\n6) risk_controls 必须为非空字符串数组，列出本次风险控制措施。\n7) evidence_refs 必须为对象，至少包含 skill_evidence 与 risk_evidence 字段。\n8) next_role 允许为 null。\n9) 必须提供 deliverables 数组，每项包含 path 与 content 字段，用于落地交付物文件。\n10) path 必须是相对路径（例如 phase1_week1_adr_v1.md），content 必须是完整 markdown 文本。")
}

} // verus!

verus! {

/// The environment variable that names a role's agent.
pub open spec fn agent_env_key(role: Role) -> Seq<char> {
    "OPENCLAW_AGENT_"@ + role_key(role).map_values(|c: char| ascii_upper(c))
}

/// The environment variable that names a role's agent, `OPENCLAW_AGENT_{ROLE}`.
pub fn role_agent_env_key(role: &Role) -> (k: String)
    ensures
        k@ == agent_env_key(*role),
{
    cat("OPENCLAW_AGENT_", to_ascii_uppercase(role.as_key()).as_str())
}

/// The agent that runs a role: the one named for the role, else the one
/// named for every role, else `main`.
pub fn choose_agent_id(role_agent: Option<String>, any_agent: Option<String>) -> (id: String)
    ensures
        id@ == match role_agent {
            Some(a) => a@,
            None => match any_agent {
                Some(b) => b@,
                None => "main"@,
            },
        },
{
    match role_agent {
        Some(a) => a,
        None => match any_agent {
            Some(b) => b,
            None => "main".to_string(),
        },
    }
}

/// Where an agent's reply carries the artifact.
#[derive(Debug)]
pub enum ArtifactSource {
    /// The reply is the artifact.
    Whole,
    /// The artifact is the JSON text in `response.content`.
    ResponseContent(String),
    /// The artifact is the JSON text in `output`.
    Output(String),
    /// The artifact is the first JSON object in the text of the first payload.
    PayloadText(String),
    /// The reply carries no artifact.
    Missing,
}

/// Where the artifact sits in a reply: the reply itself when it has a role
/// and a decision, else the text of `response.content`, of `output`, or of the
/// first payload, in that order.
pub open spec fn artifact_source_spec(outer: JsonView) -> (int, Option<Seq<char>>) {
    if jget(outer, "role"@) is Some && jget(outer, "decision"@) is Some {
        (0, None)
    } else if jget(outer, "response"@) matches Some(r) && jstr(jget(r, "content"@)) is Some {
        (1, jstr(jget(jget(outer, "response"@)->0, "content"@)))
    } else if jstr(jget(outer, "output"@)) is Some {
        (2, jstr(jget(outer, "output"@)))
    } else if jget(outer, "payloads"@) matches Some(JsonView::Array(a)) && a.len() > 0 && jstr(jget(a[0], "text"@)) is Some {
        (3, jstr(jget(jget(outer, "payloads"@)->0->Array_0[0], "text"@)))
    } else {
        (4, None)
    }
}

/// The kind and text of a located artifact.
pub open spec fn source_view(s: ArtifactSource) -> (int, Option<Seq<char>>) {
    match s {
        ArtifactSource::Whole => (0, None),
        ArtifactSource::ResponseContent(t) => (1, Some(t@)),
        ArtifactSource::Output(t) => (2, Some(t@)),
        ArtifactSource::PayloadText(t) => (3, Some(t@)),
        ArtifactSource::Missing => (4, None),
    }
}

fn member_text(j: &Json, k: &str) -> (r: Option<String>)
    ensures
        match r {
            Some(s) => jstr(jget(json_view(*j), k@)) == Some(s@),
            None => jstr(jget(json_view(*j), k@)) is None,
        },
{
    match j.get(k) {
        Some(x) => match x.as_str() {
            Some(s) => Some(s.to_string()),
            None => None,
        },
        None => None,
    }
}

/// Locates the artifact in an agent's reply.
pub fn artifact_source(outer: &Json) -> (s: ArtifactSource)
    ensures
        source_view(s) == artifact_source_spec(json_view(*outer)),
{
    if outer.get("role").is_some() && outer.get("decision").is_some() {
        return ArtifactSource::Whole;
    }
    match outer.get("response") {
        Some(r) => match member_text(r, "content") {
            Some(t) => {
                return ArtifactSource::ResponseContent(t);
            },
            None => {},
        },
        None => {},
    }
    match member_text(outer, "output") {
        Some(t) => {
            return ArtifactSource::Output(t);
        },
        None => {},
    }
    match outer.get("payloads") {
        Some(p) => match p {
            Json::Array(items) => {
                if items.len() > 0 {
                    assert(json_view(*p)->Array_0[0] == json_view(items@[0]));
                    match member_text(&items[0], "text") {
                        Some(t) => {
                            return ArtifactSource::PayloadText(t);
                        },
                        None => {},
                    }
                }
            },
            _ => {},
        },
        None => {},
    }
    ArtifactSource::Missing
}


// ---------------------------------------------------------------------------
// The first JSON object in an agent's text

/// Scans `s` from `i` for the end of the first balanced `{...}` outside
/// string literals: `start` is where the outermost object opened, `depth`
/// how many braces are open, `in_str`/`esc` whether the scan is inside a
/// string literal and just after a backslash there. The result is the
/// (first, last) positions of the object.
pub open spec fn object_scan(s: Seq<char>, i: int, start: Option<int>, depth: nat, in_str: bool, esc: bool) -> Option<
    (int, int),
>
    decreases s.len() - i,
{
    if i < 0 || i >= s.len() {
        None
    } else {
        let c = s[i];
        if in_str {
            if esc {
                object_scan(s, i + 1, start, depth, true, false)
            } else if c == '\\' {
                object_scan(s, i + 1, start, depth, true, true)
            } else if c == '"' {
                object_scan(s, i + 1, start, depth, false, false)
            } else {
                object_scan(s, i + 1, start, depth, true, false)
            }
        } else if c == '"' {
            object_scan(s, i + 1, start, depth, true, false)
        } else if c == '{' {
            object_scan(
                s,
                i + 1,
                if start is None {
                    Some(i)
                } else {
                    start
                },
                depth + 1,
                false,
                false,
            )
        } else if c == '}' && depth > 0 {
            if depth == 1 && start is Some {
                Some((start->0, i))
            } else {
                object_scan(s, i + 1, start, (depth - 1) as nat, false, false)
            }
        } else {
            object_scan(s, i + 1, start, depth, false, false)
        }
    }
}

/// The text of the first balanced JSON object in `s`, if there is one.
pub open spec fn first_json_object(s: Seq<char>) -> Option<Seq<char>> {
    match object_scan(s, 0, None, 0, false, false) {
        Some((b, e)) => Some(s.subrange(b, e + 1)),
        None => None,
    }
}

proof fn lemma_scan_bounds(s: Seq<char>, i: int, start: Option<int>, depth: nat, in_str: bool, esc: bool)
    requires
        0 <= i,
        start matches Some(b) ==> 0 <= b < i,
    ensures
        object_scan(s, i, start, depth, in_str, esc) matches Some((b, e)) ==> 0 <= b <= e < s.len(),
    decreases s.len() - i,
{
    if i < s.len() {
        let c = s[i];
        let st2 = if !in_str && c == '{' && start is None { Some(i) } else { start };
        lemma_scan_bounds(s, i + 1, st2, depth + 1, false, false);
        lemma_scan_bounds(s, i + 1, start, depth, true, false);
        lemma_scan_bounds(s, i + 1, start, depth, true, true);
        lemma_scan_bounds(s, i + 1, start, depth, false, false);
        if depth > 0 {
            lemma_scan_bounds(s, i + 1, start, (depth - 1) as nat, false, false);
        }
    }
}

/// The first balanced `{...}` of `raw`, braces inside string literals not
/// counted. Braces, quotes and backslashes are ASCII, so scanning the
/// characters finds the same object as scanning the UTF-8 bytes.
pub fn extract_first_json_object(raw: &str) -> (r: Option<String>)
    ensures
        match r {
            Some(t) => first_json_object(raw@) == Some(t@),
            None => first_json_object(raw@) is None,
        },
{
    let n = raw.unicode_len();
    let mut start: Option<usize> = None;
    let mut depth: usize = 0;
    let mut in_string = false;
    let mut escaped = false;
    let mut i: usize = 0;
    let ghost target = object_scan(raw@, 0, None, 0, false, false);
    while i < n
        invariant
            n == raw@.len(),
            i <= n,
            depth <= i,
            !in_string ==> !escaped,
            start matches Some(b) ==> b < i,
            target == object_scan(raw@, 0, None, 0, false, false),
            target == object_scan(
                raw@,
                i as int,
                match start {
                    Some(b) => Some(b as int),
                    None => None,
                },
                depth as nat,
                in_string,
                escaped,
            ),
        decreases n - i,
    {
        let ch = raw.get_char(i);
        if in_string {
            if escaped {
                escaped = false;
            } else if ch == '\\' {
                escaped = true;
            } else if ch == '"' {
                in_string = false;
            }
        } else if ch == '"' {
            in_string = true;
        } else if ch == '{' {
            if start.is_none() {
                start = Some(i);
            }
            depth = depth + 1;
        } else if ch == '}' && depth > 0 {
            depth = depth - 1;
            if depth == 0 {
                match start {
                    Some(begin) => {
                        return Some(crate::text::substring(raw, begin, i + 1));
                    },
                    None => {},
                }
            }
        }
        i = i + 1;
    }
    None
}

// ---------------------------------------------------------------------------
// Agents

/// Something that runs a role on a prompt and answers with its artifact.
pub trait OpenClawExecutor {
    /// Whether `r` is an answer this agent gives when asked to run `role` on
    /// `prompt` for the release `release_id`. An agent that does not describe
    /// its answers may give any.
    open spec fn answers(&self, role: Role, prompt: Seq<char>, release_id: Seq<char>, r: Result<Json, EngineError>) -> bool {
        true
    }

    /// Runs `role` on `prompt` for the release `release_id`.
    fn execute(&self, role: &Role, prompt: &str, release_id: &str) -> (r: Result<Json, EngineError>)
        ensures
            self.answers(*role, prompt@, release_id@, r),
    ;
}

/// An agent that runs nothing and answers, for the week it is set to, with
/// an approved artifact that hands over to the next role in line.
pub struct MockOpenClawExecutor {
    pub week: usize,
}

/// The role the mock agent hands over to.
pub open spec fn mock_next_role(role: Role) -> JsonView {
    match role {
        Role::PM => JsonView::Str("Dev"@),
        Role::Dev => JsonView::Str("QA"@),
        Role::QA => JsonView::Str("Security"@),
        Role::Security => JsonView::Str("SRE"@),
        _ => JsonView::Null,
    }
}

/// The deliverable file the mock agent writes.
pub open spec fn mock_deliverable(role: Role, prompt: Seq<char>, release_id: Seq<char>, week: usize) -> JsonView {
    JsonView::Object(
        seq![
            ("content"@, JsonView::Str(
                "# "@ + role_key(role) + " deliverable\n\n- release_id: "@ + release_id
                    + "\n- generated_by: mock-openclaw\n\n"@ + prompt,
            )),
            ("path"@, JsonView::Str(target_deliverable(week, role))),
        ],
    )
}

/// The length in bytes of the UTF-8 text of `s`, as `str::len` reports it.
pub open spec fn prompt_bytes(s: Seq<char>) -> nat {
    (encode_utf8(s).len() as usize) as nat
}

/// The evidence the mock agent reports.
pub open spec fn mock_evidence() -> JsonView {
    JsonView::Object(
        seq![
            ("metric_value"@, JsonView::Number(NumberView::Float("0.98"@))),
            ("sample_size"@, JsonView::Number(NumberView::PosInt(120))),
            ("source"@, JsonView::Str("mock-openclaw"@)),
            ("window"@, JsonView::Str("14d"@)),
        ],
    )
}

/// The evidence references the mock agent reports.
pub open spec fn mock_refs() -> JsonView {
    JsonView::Object(
        seq![
            ("artifact_version"@, JsonView::Str("v2"@)),
            ("risk_evidence"@, JsonView::Str("gate_rules_v1"@)),
            ("skill_evidence"@, JsonView::Str("prompt_contract_v2"@)),
        ],
    )
}

fn float_json(s: &str) -> (j: Json)
    ensures
        json_view(j) == JsonView::Number(NumberView::Float(s@)),
{
    Json::Number(JsonNumber::Float(s.to_string()))
}

fn uint_json(n: u64) -> (j: Json)
    ensures
        json_view(j) == JsonView::Number(NumberView::PosInt(n)),
{
    Json::Number(JsonNumber::PosInt(n))
}

fn mock_evidence_value() -> (j: Json)
    ensures
        json_view(j) == mock_evidence(),
{
    let mut ev: Vec<(String, Json)> = Vec::new();
    ev.push(("metric_value".to_string(), float_json("0.98")));
    ev.push(("sample_size".to_string(), uint_json(120)));
    ev.push(("source".to_string(), str_json("mock-openclaw")));
    ev.push(("window".to_string(), str_json("14d")));
    let j = Json::Object(ev);
    assert(json_view(j)->Object_0 =~= mock_evidence()->Object_0);
    j
}

fn mock_refs_value() -> (j: Json)
    ensures
        json_view(j) == mock_refs(),
{
    let mut rf: Vec<(String, Json)> = Vec::new();
    rf.push(("artifact_version".to_string(), str_json("v2")));
    rf.push(("risk_evidence".to_string(), str_json("gate_rules_v1")));
    rf.push(("skill_evidence".to_string(), str_json("prompt_contract_v2")));
    let j = Json::Object(rf);
    assert(json_view(j)->Object_0 =~= mock_refs()->Object_0);
    j
}

/// The artifact the mock agent answers with; members in key order.
pub open spec fn mock_artifact_spec(role: Role, prompt: Seq<char>, release_id: Seq<char>, week: usize) -> JsonView {
    JsonView::Object(
        seq![
            ("decision"@, JsonView::Str("approved"@)),
            ("deliverables"@, JsonView::Array(seq![mock_deliverable(role, prompt, release_id, week)])),
            ("evidence"@, mock_evidence()),
            ("evidence_refs"@, mock_refs()),
            ("next_role"@, mock_next_role(role)),
            ("prompt_hash"@, JsonView::Str("len:"@ + decimal(prompt_bytes(prompt)))),
            ("release_id"@, JsonView::Str(release_id)),
            ("risk_controls"@, JsonView::Array(
                seq![JsonView::Str("gate_alignment"@), JsonView::Str("evidence_traceability"@)],
            )),
            ("role"@, JsonView::Str(role_key(role))),
            ("skills_applied"@, JsonView::Array(
                seq![JsonView::Str("pmp_baseline"@), JsonView::Str(lower(role_key(role)) + "_role_skill"@)],
            )),
            ("summary"@, JsonView::Str(role_key(role) + " executed prompt"@)),
        ],
    )
}

fn str_json(s: &str) -> (j: Json)
    ensures
        json_view(j) == JsonView::Str(s@),
{
    Json::Str(s.to_string())
}

fn string_json(s: String) -> (j: Json)
    ensures
        json_view(j) == JsonView::Str(s@),
{
    Json::Str(s)
}

fn mock_next_role_value(role: &Role) -> (j: Json)
    ensures
        json_view(j) == mock_next_role(*role),
{
    match role {
        Role::PM => str_json("Dev"),
        Role::Dev => str_json("QA"),
        Role::QA => str_json("Security"),
        Role::Security => str_json("SRE"),
        _ => Json::Null,
    }
}

fn mock_deliverable_value(role: &Role, prompt: &str, release_id: &str, week: usize) -> (j: Json)
    ensures
        json_view(j) == mock_deliverable(*role, prompt@, release_id@, week),
{
    let mut content = String::from_str("# ");
    content.append(role.as_key());
    content.append(" deliverable\n\n- release_id: ");
    content.append(release_id);
    content.append("\n- generated_by: mock-openclaw\n\n");
    content.append(prompt);
    let mut m: Vec<(String, Json)> = Vec::new();
    m.push(("content".to_string(), string_json(content)));
    m.push(("path".to_string(), str_json(default_deliverable_path(week, role))));
    let j = Json::Object(m);
    assert(json_view(j)->Object_0 =~= mock_deliverable(*role, prompt@, release_id@, week)->Object_0);
    j
}

/// The mock agent's artifact for `role` on `prompt` in `week`.
pub fn mock_artifact(role: &Role, prompt: &str, release_id: &str, week: usize) -> (j: Json)
    ensures
        json_view(j) == mock_artifact_spec(*role, prompt@, release_id@, week),
{
    let key = role.as_key();
    let evidence = mock_evidence_value();
    let refs = mock_refs_value();
    let mut dl: Vec<Json> = Vec::new();
    dl.push(mock_deliverable_value(role, prompt, release_id, week));
    let deliverables = Json::Array(dl);
    let mut rc: Vec<Json> = Vec::new();
    rc.push(str_json("gate_alignment"));
    rc.push(str_json("evidence_traceability"));
    let risk = Json::Array(rc);
    let lowered = to_ascii_lowercase(key);
    let skill = cat(lowered.as_str(), "_role_skill");
    let mut sk: Vec<Json> = Vec::new();
    sk.push(str_json("pmp_baseline"));
    sk.push(string_json(skill));
    let skills = Json::Array(sk);
    let hash = cat("len:", decimal_string(prompt.len() as u64).as_str());
    let summary = cat(key, " executed prompt");
    proof {
        assert(json_view(deliverables)->Array_0 =~= seq![mock_deliverable(*role, prompt@, release_id@, week)]);
        assert(json_view(risk)->Array_0 =~= seq![JsonView::Str("gate_alignment"@), JsonView::Str("evidence_traceability"@)]);
        assert(json_view(skills)->Array_0 =~= seq![JsonView::Str("pmp_baseline"@), JsonView::Str(lower(role_key(*role)) + "_role_skill"@)]);
    }
    let mut m: Vec<(String, Json)> = Vec::new();
    m.push(("decision".to_string(), str_json("approved")));
    m.push(("deliverables".to_string(), deliverables));
    m.push(("evidence".to_string(), evidence));
    m.push(("evidence_refs".to_string(), refs));
    m.push(("next_role".to_string(), mock_next_role_value(role)));
    m.push(("prompt_hash".to_string(), string_json(hash)));
    m.push(("release_id".to_string(), str_json(release_id)));
    m.push(("risk_controls".to_string(), risk));
    m.push(("role".to_string(), str_json(key)));
    m.push(("skills_applied".to_string(), skills));
    m.push(("summary".to_string(), string_json(summary)));
    let j = Json::Object(m);
    assert(json_view(j)->Object_0 =~= mock_artifact_spec(*role, prompt@, release_id@, week)->Object_0);
    j
}

impl OpenClawExecutor for MockOpenClawExecutor {
    /// The mock agent always answers with its artifact.
    open spec fn answers(&self, role: Role, prompt: Seq<char>, release_id: Seq<char>, r: Result<Json, EngineError>) -> bool {
        r matches Ok(j) && json_view(j) == mock_artifact_spec(role, prompt, release_id, self.week)
    }

    fn execute(&self, role: &Role, prompt: &str, release_id: &str) -> (r: Result<Json, EngineError>) {
        Ok(mock_artifact(role, prompt, release_id, self.week))
    }
}

impl MockOpenClawExecutor {
    /// The mock agent's answer: always its artifact.
    pub fn answer(&self, role: &Role, prompt: &str, release_id: &str) -> (r: Result<Json, EngineError>)
        ensures
            r matches Ok(j) && json_view(j) == mock_artifact_spec(*role, prompt@, release_id@, self.week),
    {
        Ok(mock_artifact(role, prompt, release_id, self.week))
    }
}

} // verus!

verus! {

/// What agent output parses to: the whole text as JSON, else the first JSON
/// object found in it; when neither parses, the error of the whole text.
pub open spec fn json_object_parse(raw: Seq<char>) -> Result<JsonView, Seq<char>> {
    match parsed_json(raw) {
        Ok(v) => Ok(v),
        Err(e) => match first_json_object(raw) {
            Some(c) => parsed_json(c),
            None => Err(e),
        },
    }
}

/// Parses agent output: the whole text as JSON, else the first JSON object in it.
pub fn parse_json_object(raw: &str) -> (r: Result<Json, String>)
    ensures
        match r {
            Ok(j) => json_object_parse(raw@) == Ok::<JsonView, Seq<char>>(json_view(j)),
            Err(e) => json_object_parse(raw@) == Err::<JsonView, Seq<char>>(e@),
        },
{
    match parse_json_text(raw) {
        Ok(j) => Ok(j),
        Err(e) => match extract_first_json_object(raw) {
            Some(c) => parse_json_text(c.as_str()),
            None => Err(e),
        },
    }
}

/// What an artifact text located in a reply parses to: the whole text, or,
/// for a payload's text, the first JSON object in it; a failure names where
/// the text came from.
pub open spec fn located_artifact(text: Seq<char>, whole_text: bool, what: Seq<char>) -> Result<JsonView, Seq<char>> {
    let parsed = if whole_text { parsed_json(text) } else { json_object_parse(text) };
    match parsed {
        Ok(v) => Ok(v),
        Err(e) => Err(what + " is not artifact json: "@ + e),
    }
}

fn parse_artifact(text: &str, whole_text: bool, what: &str) -> (r: Result<Json, EngineError>)
    ensures
        match r {
            Ok(j) => located_artifact(text@, whole_text, what@) == Ok::<JsonView, Seq<char>>(json_view(j)),
            Err(e) => e matches EngineError::ArtifactParse(m) && located_artifact(text@, whole_text, what@) == Err::<
                JsonView,
                Seq<char>,
            >(m@),
        },
{
    let parsed = if whole_text { parse_json_text(text) } else { parse_json_object(text) };
    match parsed {
        Ok(j) => Ok(j),
        Err(e) => {
            let a = cat(what, " is not artifact json: ");
            Err(EngineError::ArtifactParse(cat(a.as_str(), e.as_str())))
        },
    }
}

/// The artifact in an agent's standard output: the output is parsed as a
/// reply, the artifact located in it and, when it is carried as text, parsed
/// in turn; each failure is an `ArtifactParse` error saying where it arose.
pub open spec fn stdout_artifact(stdout: Seq<char>) -> Result<JsonView, Seq<char>> {
    match json_object_parse(stdout) {
        Err(e) => Err("stdout is not valid json: "@ + e),
        Ok(outer) => {
            let (kind, text) = artifact_source_spec(outer);
            if kind == 0 {
                Ok(outer)
            } else if kind == 1 {
                located_artifact(text->0, true, "response.content"@)
            } else if kind == 2 {
                located_artifact(text->0, true, "output"@)
            } else if kind == 3 {
                located_artifact(text->0, false, "payloads[0].text"@)
            } else {
                Err("cannot find artifact json in openclaw output"@)
            }
        },
    }
}

/// The artifact an agent printed on its standard output.
pub fn artifact_from_stdout(stdout: &str) -> (r: Result<Json, EngineError>)
    ensures
        match r {
            Ok(j) => stdout_artifact(stdout@) == Ok::<JsonView, Seq<char>>(json_view(j)),
            Err(e) => e matches EngineError::ArtifactParse(m) && stdout_artifact(stdout@) == Err::<JsonView, Seq<char>>(
                m@,
            ),
        },
{
    let outer = match parse_json_object(stdout) {
        Ok(j) => j,
        Err(e) => {
            return Err(EngineError::ArtifactParse(cat("stdout is not valid json: ", e.as_str())));
        },
    };
    proof {
        reveal_strlit("response.content");
        reveal_strlit("output");
        reveal_strlit("payloads[0].text");
    }
    match artifact_source(&outer) {
        ArtifactSource::Whole => Ok(outer),
        ArtifactSource::ResponseContent(t) => parse_artifact(t.as_str(), true, "response.content"),
        ArtifactSource::Output(t) => parse_artifact(t.as_str(), true, "output"),
        ArtifactSource::PayloadText(t) => parse_artifact(t.as_str(), false, "payloads[0].text"),
        ArtifactSource::Missing => Err(EngineError::ArtifactParse("cannot find artifact json in openclaw output".to_string())),
    }
}

} // verus!
