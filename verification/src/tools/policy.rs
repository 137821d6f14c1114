//! The permission gate before a tool call.

use crate::json::{json_get_str, json_of, string_field, Json};
use crate::text::{cat, opt_text, same};
use vstd::prelude::*;

verus! {

/// The tool through which packed tools are reached.
pub const USE_SKILL: &'static str = "use_skill";

/// A call that the model asks for.
#[derive(Debug, PartialEq)]
pub struct ToolCall {
    pub name: String,
    pub arguments: serde_json::Value,
}

/// What a session decided of a tool. Permission levels are ordered by their rank. A tool that is
/// withheld from the prompt counts as denied, and yet its execution is not blocked.
#[derive(Clone, Copy, Debug, PartialEq, Eq)]
pub struct SessionDecision {
    pub denied: bool,
    pub required_permission: u32,
    pub allowed_permission: u32,
}

/// What a session decided of a packed tool: whether its execution is blocked, and the way to it
/// that the model can be told of.
#[derive(Debug, PartialEq, Eq)]
pub struct InnerRoute {
    pub blocks_execution: bool,
    pub hint: Option<String>,
}

/// Why a call is refused.
#[derive(Debug, PartialEq, Eq)]
pub enum PolicyDenial {
    /// The session forbids the tool.
    SessionForbidden { tool: String, required: u32, allowed: u32, channel: String },
    /// The call needs a higher permission than the session allows.
    PermissionTooLow { tool: String, required: u32, allowed: u32, channel: String },
    /// The packed tool behind the call is blocked.
    InnerForbidden { message: String },
}

/// What a [`PolicyDenial`] says.
pub enum PolicyDenialView {
    SessionForbidden { tool: Seq<char>, required: u32, allowed: u32, channel: Seq<char> },
    PermissionTooLow { tool: Seq<char>, required: u32, allowed: u32, channel: Seq<char> },
    InnerForbidden { message: Seq<char> },
}

impl View for PolicyDenial {
    type V = PolicyDenialView;

    open spec fn view(&self) -> PolicyDenialView {
        match self {
            PolicyDenial::SessionForbidden { tool, required, allowed, channel } =>
                PolicyDenialView::SessionForbidden {
                    tool: tool@,
                    required: *required,
                    allowed: *allowed,
                    channel: channel@,
                },
            PolicyDenial::PermissionTooLow { tool, required, allowed, channel } =>
                PolicyDenialView::PermissionTooLow {
                    tool: tool@,
                    required: *required,
                    allowed: *allowed,
                    channel: channel@,
                },
            PolicyDenial::InnerForbidden { message } => PolicyDenialView::InnerForbidden {
                message: message@,
            },
        }
    }
}

/// What an optional denial says.
pub open spec fn denial_view(denial: Option<PolicyDenial>) -> Option<PolicyDenialView> {
    match denial {
        Some(d) => Some(d@),
        None => None,
    }
}

/// The packed tool that a call reaches through `use_skill`, where it names one.
pub open spec fn inner_name(name: Seq<char>, arguments: Json) -> Option<Seq<char>> {
    if name == USE_SKILL@ {
        string_field(arguments, "tool"@)
    } else {
        None
    }
}

/// What is decided of a call before the packed tool behind it is looked at: a refusal, a pass
/// where the tool is not known here, or neither.
pub open spec fn outer_verdict(
    name: Seq<char>,
    channel: Seq<char>,
    decision: SessionDecision,
    call_required: Option<u32>,
) -> Option<Option<PolicyDenialView>> {
    if decision.denied {
        Some(
            Some(
                PolicyDenialView::SessionForbidden {
                    tool: name,
                    required: decision.required_permission,
                    allowed: decision.allowed_permission,
                    channel,
                },
            ),
        )
    } else {
        match call_required {
            None => Some(None),
            Some(required) => if required > decision.allowed_permission {
                Some(
                    Some(
                        PolicyDenialView::PermissionTooLow {
                            tool: name,
                            required,
                            allowed: decision.allowed_permission,
                            channel,
                        },
                    ),
                )
            } else {
                None
            },
        }
    }
}

/// The way to a packed tool, as it is told behind a refusal.
pub open spec fn told_hint(hint: Option<Seq<char>>) -> Seq<char> {
    match hint {
        Some(way) => if way.len() > 0 {
            " "@ + way
        } else {
            Seq::empty()
        },
        None => Seq::empty(),
    }
}

/// What is decided of the packed tool behind a call. A bare refusal would leave the model nothing
/// to do differently, so the way to the tool is told where there is one.
pub open spec fn inner_verdict(
    inner: Seq<char>,
    blocks_execution: bool,
    hint: Option<Seq<char>>,
) -> Option<PolicyDenialView> {
    if blocks_execution {
        Some(
            PolicyDenialView::InnerForbidden {
                message: "Tool `"@ + inner
                    + "` is not allowed in the current session and cannot be used through `use_skill`."@
                    + told_hint(hint),
            },
        )
    } else {
        None
    }
}

/// The packed tool that a call reaches through `use_skill`, where it names one.
pub fn inner_tool(call: &ToolCall) -> (r: Option<String>)
    ensures
        opt_text(r) == inner_name(call.name@, json_of(call.arguments)),
{
    if same(call.name.as_str(), USE_SKILL) {
        json_get_str(&call.arguments, "tool")
    } else {
        None
    }
}

/// The refusal of the packed tool behind a call, where the session blocks it.
pub fn inner_permission_block(inner: &str, route: &InnerRoute) -> (r: Option<PolicyDenial>)
    ensures
        denial_view(r) == inner_verdict(inner@, route.blocks_execution, opt_text(route.hint)),
{
    if !route.blocks_execution {
        return None;
    }
    let mut message: String = cat("Tool `", inner);
    message.append(
        "` is not allowed in the current session and cannot be used through `use_skill`.",
    );
    match &route.hint {
        Some(way) => {
            if way.as_str().unicode_len() > 0 {
                message.append(" ");
                message.append(way.as_str());
            }
        },
        None => (),
    }
    assert(message@ =~= "Tool `"@ + inner@
        + "` is not allowed in the current session and cannot be used through `use_skill`."@
        + told_hint(opt_text(route.hint)));
    Some(PolicyDenial::InnerForbidden { message })
}

/// The refusal of a call, where it has to be refused: first by what the session decided of the
/// tool, then by the permission that this call needs, and then by what the session decided of the
/// packed tool behind it. `call_required` is the permission that the tool asks for these
/// arguments, where the tool is known, and `route_of` tells what the session decided of a packed
/// tool.
pub fn channel_permission_block<F>(
    call: &ToolCall,
    channel: &str,
    decision: &SessionDecision,
    call_required: Option<u32>,
    route_of: F,
) -> (r: Option<PolicyDenial>) where F: FnOnce(&str) -> InnerRoute
    requires
        forall|name: &str| #[trigger] call_requires(route_of, (name,)),
    ensures
        match outer_verdict(call.name@, channel@, *decision, call_required) {
            Some(verdict) => denial_view(r) == verdict,
            None => match inner_name(call.name@, json_of(call.arguments)) {
                None => r is None,
                Some(inner) => exists|name: &str, route: InnerRoute|
                    {
                        &&& name@ == inner
                        &&& #[trigger] call_ensures(route_of, (name,), route)
                        &&& denial_view(r) == inner_verdict(
                            inner,
                            route.blocks_execution,
                            opt_text(route.hint),
                        )
                    },
            },
        },
        decision.denied ==> r is Some && r->0 is SessionForbidden && r->0->SessionForbidden_tool@
            == call.name@ && r->0->SessionForbidden_required == decision.required_permission
            && r->0->SessionForbidden_allowed == decision.allowed_permission
            && r->0->SessionForbidden_channel@ == channel@,
        !decision.denied && call_required is None ==> r is None,
        !decision.denied && call_required is Some && call_required->0 > decision.allowed_permission
            ==> r is Some && r->0 is PermissionTooLow && r->0->PermissionTooLow_tool@ == call.name@
            && r->0->PermissionTooLow_required == call_required->0 && r->0->PermissionTooLow_allowed
            == decision.allowed_permission && r->0->PermissionTooLow_channel@ == channel@,
        !decision.denied && call_required is Some && call_required->0
            <= decision.allowed_permission && call.name@ != "use_skill"@ ==> r is None,
        !decision.denied && call_required is Some && call_required->0
            <= decision.allowed_permission && call.name@ == "use_skill"@ ==> match string_field(
            json_of(call.arguments),
            "tool"@,
        ) {
            None => r is None,
            Some(inner) => exists|name: &str, route: InnerRoute|
                {
                    &&& name@ == inner
                    &&& #[trigger] call_ensures(route_of, (name,), route)
                    &&& r is Some <==> route.blocks_execution
                    &&& r is Some ==> r->0 is InnerForbidden
                },
        },
{
    if decision.denied {
        return Some(
            PolicyDenial::SessionForbidden {
                tool: call.name.clone(),
                required: decision.required_permission,
                allowed: decision.allowed_permission,
                channel: channel.to_owned(),
            },
        );
    }
    let required: u32 = match call_required {
        Some(level) => level,
        None => return None,
    };
    if required > decision.allowed_permission {
        return Some(
            PolicyDenial::PermissionTooLow {
                tool: call.name.clone(),
                required,
                allowed: decision.allowed_permission,
                channel: channel.to_owned(),
            },
        );
    }
    match inner_tool(call) {
        None => None,
        Some(inner) => {
            let route: InnerRoute = route_of(inner.as_str());
            inner_permission_block(inner.as_str(), &route)
        },
    }
}

/// A tool that the session forbids is refused whatever the call needs, and a call that needs more
/// than the session allows is refused whatever is behind it.
pub proof fn law_the_session_has_the_first_word(
    name: Seq<char>,
    channel: Seq<char>,
    decision: SessionDecision,
    call_required: Option<u32>,
)
    ensures
        decision.denied ==> {
            let verdict = outer_verdict(name, channel, decision, call_required);
            verdict is Some && verdict->0 is Some && verdict->0->0 is SessionForbidden
        },
        !decision.denied && call_required is Some && call_required->0 > decision.allowed_permission
            ==> {
            let verdict = outer_verdict(name, channel, decision, call_required);
            verdict is Some && verdict->0 is Some && verdict->0->0 is PermissionTooLow
        },
{
}

/// A packed tool is refused exactly where its execution is blocked: that a tool is withheld from
/// the prompt does not keep it from being used through `use_skill`.
pub proof fn law_a_packed_tool_is_refused_where_it_is_blocked(
    inner: Seq<char>,
    blocks_execution: bool,
    hint: Option<Seq<char>>,
)
    ensures
        inner_verdict(inner, blocks_execution, hint) is Some <==> blocks_execution,
{
}

/// A call reaches the packed tool behind it exactly where its own tool is not denied, is known and
/// asks for no more than is allowed, a permission as high as the ceiling among them; a known tool
/// that is neither denied nor asks for more is never decided before that.
pub proof fn law_a_call_within_its_permission_is_looked_into(
    name: Seq<char>,
    channel: Seq<char>,
    decision: SessionDecision,
    call_required: Option<u32>,
)
    ensures
        outer_verdict(name, channel, decision, call_required) is None <==> !decision.denied
            && call_required is Some && call_required->0 <= decision.allowed_permission,
        !decision.denied && call_required is None ==> outer_verdict(
            name,
            channel,
            decision,
            call_required,
        ) == Some(None::<PolicyDenialView>),
{
}

/// A refusal by the session or by the ceiling tells the tool, what is needed, what is allowed and
/// the channel: for the session what it decided the tool needs, for the ceiling what this call
/// needs.
pub proof fn law_a_refusal_tells_what_is_needed_and_allowed(
    name: Seq<char>,
    channel: Seq<char>,
    decision: SessionDecision,
    required: u32,
)
    ensures
        decision.denied ==> outer_verdict(name, channel, decision, Some(required)) == Some(
            Some(
                PolicyDenialView::SessionForbidden {
                    tool: name,
                    required: decision.required_permission,
                    allowed: decision.allowed_permission,
                    channel,
                },
            ),
        ) && outer_verdict(name, channel, decision, None) == outer_verdict(
            name,
            channel,
            decision,
            Some(required),
        ),
        !decision.denied && required > decision.allowed_permission ==> outer_verdict(
            name,
            channel,
            decision,
            Some(required),
        ) == Some(
            Some(
                PolicyDenialView::PermissionTooLow {
                    tool: name,
                    required,
                    allowed: decision.allowed_permission,
                    channel,
                },
            ),
        ),
{
}

/// A packed tool is looked for behind `use_skill` alone, in the string that its arguments hold as
/// `tool`; any other value there names none.
pub proof fn law_only_use_skill_reaches_a_packed_tool(name: Seq<char>, arguments: Json)
    ensures
        name != "use_skill"@ ==> inner_name(name, arguments) is None,
        name == "use_skill"@ ==> match arguments {
            Json::Obj(fields) => if fields.dom().contains("tool"@) && fields["tool"@] is Str {
                inner_name(name, arguments) == Some(fields["tool"@]->Str_0)
            } else {
                inner_name(name, arguments) is None
            },
            _ => inner_name(name, arguments) is None,
        },
{
}

/// The refusal of a packed tool names the tool, and ends with the way to it where there is one to
/// tell.
pub proof fn law_a_packed_refusal_names_the_tool_and_the_way(inner: Seq<char>, way: Seq<char>)
    ensures
        ({
            let bare = "Tool `"@ + inner
                + "` is not allowed in the current session and cannot be used through `use_skill`."@;
            let told = |hint: Option<Seq<char>>| inner_verdict(inner, true, hint);
            &&& told(None) == Some(PolicyDenialView::InnerForbidden { message: bare })
            &&& way.len() == 0 ==> told(Some(way)) == Some(
                PolicyDenialView::InnerForbidden { message: bare },
            )
            &&& way.len() > 0 ==> told(Some(way)) == Some(
                PolicyDenialView::InnerForbidden { message: bare + " "@ + way },
            )
        }),
{
    let bare = "Tool `"@ + inner
        + "` is not allowed in the current session and cannot be used through `use_skill`."@;
    assert(bare + Seq::<char>::empty() =~= bare);
    assert(bare + (" "@ + way) =~= bare + " "@ + way);
}

/// What a refusal says is what it holds.
pub proof fn law_a_refusal_says_what_it_holds(denial: PolicyDenial)
    ensures
        denial is SessionForbidden ==> denial@ is SessionForbidden
            && denial@->SessionForbidden_tool == denial->SessionForbidden_tool@
            && denial@->SessionForbidden_required == denial->SessionForbidden_required
            && denial@->SessionForbidden_allowed == denial->SessionForbidden_allowed
            && denial@->SessionForbidden_channel == denial->SessionForbidden_channel@,
        denial is PermissionTooLow ==> denial@ is PermissionTooLow
            && denial@->PermissionTooLow_tool == denial->PermissionTooLow_tool@
            && denial@->PermissionTooLow_required == denial->PermissionTooLow_required
            && denial@->PermissionTooLow_allowed == denial->PermissionTooLow_allowed
            && denial@->PermissionTooLow_channel == denial->PermissionTooLow_channel@,
        denial is InnerForbidden ==> denial@ is InnerForbidden && denial@->InnerForbidden_message
            == denial->InnerForbidden_message@,
        denial_view(Some(denial)) == Some(denial@),
        denial_view(None) is None,
{
}

} // verus!
