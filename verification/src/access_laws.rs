//! What holds of roles and refusals, of sizes and of elevations.
use vstd::prelude::*;

use crate::auth::{project_refusal, Caller, DownloadScope, Role};
use crate::elevation::Elevation;
use crate::sizes::{
    nearest_quotient, one_decimal, ordinary_sizes_are_exact, project_full, room_left, size_text,
    UploadMeter, EXACT,
};
use crate::text::decimal;

verus! {

broadcast use vstd::string::group_string_axioms;

// ---------------------------------------------------------------------------
// Roles
// ---------------------------------------------------------------------------

/// Everybody may look; only an admin may do what takes an admin; what takes an
/// operator an admin may do too, and what takes a picker both of them; and
/// where nothing may be changed everybody is a viewer.
pub proof fn each_role_includes_the_ones_before_it(caller: Caller)
    ensures
        caller.allowed(Role::Viewer),
        caller.allowed(Role::Picker) <==> !caller.read_only && caller.role != Role::Viewer,
        caller.allowed(Role::Operator) <==> !caller.read_only && (caller.role == Role::Operator
            || caller.role == Role::Admin),
        caller.allowed(Role::Admin) <==> !caller.read_only && caller.role == Role::Admin,
{
}

/// Everybody may download nothing; and each scope includes those before it,
/// from results by picks and derived values to everything.
pub proof fn each_scope_includes_the_ones_before_it(caller: Caller)
    ensures
        caller.allowed_download(DownloadScope::Nothing),
        caller.allowed_download(DownloadScope::Results) <==> caller.download
            != DownloadScope::Nothing,
        caller.allowed_download(DownloadScope::Picks) <==> caller.download
            != DownloadScope::Nothing && caller.download != DownloadScope::Results,
        caller.allowed_download(DownloadScope::Derived) <==> caller.download
            == DownloadScope::Derived || caller.download == DownloadScope::All,
        caller.allowed_download(DownloadScope::All) <==> caller.download == DownloadScope::All,
{
}

/// A refusal says what would help: nothing on a server where nothing may be
/// changed, signing in where nobody is signed in, and otherwise the role.
pub proof fn a_refusal_says_what_would_help(caller: Caller, role: Role, action: Seq<char>)
    ensures
        ({
            let refused = caller.role_refusal(role, action);
            &&& caller.read_only ==> refused.status == 403 && refused.code == "read_only"@
                && refused.message == "This server is read-only, so nobody can "@ + action
                + " here."@
            &&& !caller.read_only && caller.user is None ==> refused.status == 401 && refused.code
                == "authentication_required"@ && refused.message == "Sign in to "@ + action + "."@
            &&& !caller.read_only && caller.user is Some ==> refused.status == 403 && refused.code
                == "insufficient_role"@ && refused.message == "You need the "@ + role.label()
                + " role to "@ + action + "."@
        }),
        ({
            let refused = caller.download_refusal(action);
            &&& caller.user is None ==> refused.status == 401 && refused.code
                == "authentication_required"@
            &&& caller.user is Some ==> refused.status == 403 && refused.code
                == "insufficient_download_scope"@
        }),
{
}

/// A project is changed only by an operator, and only where there is one.
pub proof fn a_project_is_changed_only_by_an_operator(
    caller: Caller,
    has_project: bool,
    action: Seq<char>,
    otherwise: Seq<char>,
)
    ensures
        ({
            let refused = project_refusal(caller, has_project, action, otherwise);
            let operator = !caller.read_only && (caller.role == Role::Operator || caller.role
                == Role::Admin);
            &&& refused is None <==> operator && has_project
            &&& !operator ==> refused->0.status == 401 || refused->0.status == 403
            &&& operator && !has_project ==> refused->0.status == 409 && refused->0.code
                == "not_a_project"@ && refused->0.message == otherwise
        }),
{
}

/// Whoever is signed in goes by their own name, and two who are go by two
/// names.
pub proof fn everybody_goes_by_their_own_name(caller: Caller, other: Caller)
    ensures
        caller.user is Some ==> caller.shown_name() == caller.user->0@,
        caller.user is None ==> caller.shown_name() == "(anonymous)"@,
        caller.user is Some && other.user is Some && caller.user->0@ != other.user->0@
            ==> caller.shown_name() != other.shown_name(),
{
}

// ---------------------------------------------------------------------------
// Sizes
// ---------------------------------------------------------------------------

/// The nearest quotient is off by no more than half a divisor, and halfway
/// between two it is the even one.
pub proof fn the_nearest_quotient_is_nearest(n: nat, d: nat)
    requires
        d > 0,
    ensures
        -(d as int) <= 2 * (nearest_quotient(n, d) * d - n) <= d,
        2 * (nearest_quotient(n, d) * d - n) == d || 2 * (nearest_quotient(n, d) * d - n) == -(
        d as int) ==> nearest_quotient(n, d) % 2 == 0,
{
    let q = n / d;
    let r = n % d;
    assert(n == q * d + r && 0 <= r < d) by (nonlinear_arith)
        requires
            d > 0,
            q == n / d,
            r == n % d,
    ;
    assert((q + 1) * d == q * d + d) by (nonlinear_arith);
}

/// A size is written in the largest unit that it reaches: bytes exactly, and
/// otherwise to a tenth of the unit.
pub proof fn a_size_is_written_in_the_unit_it_reaches(bytes: u64)
    ensures
        bytes < 1024 ==> size_text(bytes) == decimal(bytes as nat) + " bytes"@,
        1024 <= bytes < 1024 * 1024 ==> size_text(bytes) == one_decimal(
            nearest_quotient(10 * bytes as nat, 1024),
        ) + " kB"@,
        1024 * 1024 <= bytes < 1024 * 1024 * 1024 ==> size_text(bytes) == one_decimal(
            nearest_quotient(10 * bytes as nat, 1024 * 1024),
        ) + " MB"@,
        1024 * 1024 * 1024 <= bytes < EXACT ==> size_text(bytes) == one_decimal(
            nearest_quotient(10 * bytes as nat, 1024 * 1024 * 1024),
        ) + " GB"@,
{
    if bytes < EXACT {
        ordinary_sizes_are_exact(bytes, 1024);
        ordinary_sizes_are_exact(bytes, 1024 * 1024);
        ordinary_sizes_are_exact(bytes, 1024 * 1024 * 1024);
    }
}

/// A number of tenths is written with its tenth behind the point.
pub proof fn tenths_are_written_behind_the_point(whole: nat, tenth: nat)
    requires
        tenth < 10,
    ensures
        one_decimal(10 * whole + tenth) == decimal(whole) + "."@ + decimal(tenth),
{
    assert((10 * whole + tenth) / 10 == whole && (10 * whole + tenth) % 10 == tenth);
}

/// What is left of a limit is what is not used of it, and nothing where more
/// is used.
pub proof fn what_is_left_is_what_is_not_used(cap: u64, used: u64)
    ensures
        used <= cap ==> room_left(cap, used) + used == cap,
        used > cap ==> room_left(cap, used) == 0,
{
}

/// What fits is never refused, however it arrives; and what does not fit is
/// refused at once where it comes in one piece.
pub proof fn what_fits_is_never_refused(meter: UploadMeter, chunk: u64)
    ensures
        meter.written + chunk <= meter.room ==> !meter.refuses(chunk),
        meter.written == 0 && meter.since_check == 0 && chunk > meter.room ==> meter.refuses(chunk),
        meter.written + chunk > meter.room && chunk >= 8 * 1024 * 1024 ==> meter.refuses(chunk),
{
}

/// A full project says how much was asked for, how much is left and of what.
pub proof fn a_full_project_says_what_is_left(needed: u64, room: u64, cap: u64)
    ensures
        project_full(needed, room, cap).status == 413,
        project_full(needed, room, cap).code == "project_full"@,
        project_full(needed, room, cap).message == "That radargram is "@ + size_text(needed)
            + " and the project has "@ + size_text(room) + " left of its "@ + size_text(cap)
            + " limit. Remove something, or raise the limit with `max_bytes` under [radargrams] in ridal.toml."@,
{
}

// ---------------------------------------------------------------------------
// Elevations
// ---------------------------------------------------------------------------

/// Elevations are ordered as the numbers they stand for: those above zero by
/// their patterns, those below the other way round, all above before all
/// below, both zeros alike, and nothing that is no number at all.
pub proof fn elevations_are_ordered_as_numbers(a: Elevation, b: Elevation)
    ensures
        a.bits <= 0x7ff0_0000_0000_0000 && b.bits <= 0x7ff0_0000_0000_0000 ==> (a.at_or_above(b)
            <==> a.bits >= b.bits),
        0x8000_0000_0000_0000 <= a.bits <= 0xfff0_0000_0000_0000 && 0x8000_0000_0000_0000 <= b.bits
            <= 0xfff0_0000_0000_0000 ==> (a.at_or_above(b) <==> a.bits <= b.bits),
        a.bits <= 0x7ff0_0000_0000_0000 && 0x8000_0000_0000_0000 <= b.bits <= 0xfff0_0000_0000_0000
            ==> a.at_or_above(b),
        b.bits <= 0x7ff0_0000_0000_0000 && 0x8000_0000_0000_0000 < a.bits <= 0xfff0_0000_0000_0000
            ==> !a.at_or_above(b),
        b.bits <= 0x7ff0_0000_0000_0000 && a.bits == 0x8000_0000_0000_0000 ==> (a.at_or_above(b)
            <==> b.bits == 0),
        0x7ff0_0000_0000_0000 < a.bits < 0x8000_0000_0000_0000 || a.bits > 0xfff0_0000_0000_0000
            ==> !a.at_or_above(b) && !b.at_or_above(a),
{
}

/// Roles go by four different names.
pub proof fn each_role_has_its_name(role: Role)
    ensures
        role == Role::Viewer ==> role.label() == "viewer"@,
        role == Role::Picker ==> role.label() == "picker"@,
        role == Role::Operator ==> role.label() == "operator"@,
        role == Role::Admin ==> role.label() == "admin"@,
{
}

/// On one's own machine one is an operator who may download everything, under
/// a name and without signing in.
pub proof fn on_ones_own_machine_one_is_an_operator(read_only: bool, caller: Caller)
    requires
        call_ensures(Caller::local, (read_only,), caller),
    ensures
        caller.shown_name() == "default"@,
        caller.allowed(Role::Operator) == !read_only,
        !caller.allowed(Role::Admin),
        caller.allowed_download(DownloadScope::All),
        !caller.authentication_configured,
{
}

} // verus!
