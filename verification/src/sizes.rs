//! Sizes, as people read them, and what a project has room for.
use vstd::prelude::*;

use crate::api_error::{refusal, ApiError, ErrorView};
use crate::text;
use crate::text::{decimal, parsed_u64};

verus! {

broadcast use vstd::string::group_string_axioms;

/// The quotient nearest to `n / d`, and of two equally near the even one.
pub open spec fn nearest_quotient(n: nat, d: nat) -> nat {
    let q = n / d;
    let r = n % d;
    if 2 * r < d || (2 * r == d && q % 2 == 0) {
        q
    } else {
        q + 1
    }
}

/// Two to the 53rd: below it every whole number is a double.
pub const EXACT: u64 = 0x20_0000_0000_0000;

/// How far apart the doubles around `n` are.
pub open spec fn double_spacing(n: nat) -> nat
    decreases n,
{
    if n < EXACT {
        1
    } else {
        2 * double_spacing(n / 2)
    }
}

/// The double nearest to `n`.
pub open spec fn as_double(n: nat) -> nat {
    nearest_quotient(n, double_spacing(n)) * double_spacing(n)
}

/// `n / scale` in tenths, as dividing doubles and writing one decimal gives it.
/// `scale` is a power of two, so the division itself is exact.
pub open spec fn in_tenths(n: nat, scale: nat) -> nat {
    nearest_quotient(10 * as_double(n), scale)
}

/// A number of tenths, with one decimal.
pub open spec fn one_decimal(tenths: nat) -> Seq<char> {
    decimal(tenths / 10) + "."@ + decimal(tenths % 10)
}

pub const KILO: u64 = 0x400;

pub const MEGA: u64 = 0x10_0000;

pub const GIGA: u64 = 0x4000_0000;

/// A size as people read it: in the largest unit it reaches, with one decimal
/// for any unit above bytes.
pub open spec fn size_text(bytes: u64) -> Seq<char> {
    if bytes >= GIGA {
        one_decimal(in_tenths(bytes as nat, GIGA as nat)) + " GB"@
    } else if bytes >= MEGA {
        one_decimal(in_tenths(bytes as nat, MEGA as nat)) + " MB"@
    } else if bytes >= KILO {
        one_decimal(in_tenths(bytes as nat, KILO as nat)) + " kB"@
    } else {
        decimal(bytes as nat) + " bytes"@
    }
}

fn divide_to_nearest(n: u128, d: u128) -> (q: u128)
    requires
        0 < d <= 0x1_0000_0000_0000_0000,
        n <= 0xff_ffff_ffff_ffff_ffff,
    ensures
        q == nearest_quotient(n as nat, d as nat),
        q <= n / d + 1,
{
    let q: u128 = n / d;
    let r: u128 = n % d;
    if 2 * r < d || (2 * r == d && q % 2 == 0) {
        q
    } else {
        q + 1
    }
}

proof fn lemma_spacing_doubles(unit: nat, n: nat)
    requires
        n >= EXACT,
    ensures
        unit * double_spacing(n) == (2 * unit) * double_spacing(n / 2),
{
    assert(unit * (2 * double_spacing(n / 2)) == (2 * unit) * double_spacing(n / 2))
        by (nonlinear_arith);
}

fn spacing_of(n: u64) -> (unit: u128)
    ensures
        unit == double_spacing(n as nat),
        1 <= unit <= 0x800,
{
    let mut rest: u64 = n;
    let mut unit: u128 = 1;
    assert(1 * double_spacing(n as nat) == double_spacing(n as nat)) by (nonlinear_arith);
    while rest >= EXACT
        invariant
            unit * double_spacing(rest as nat) == double_spacing(n as nat),
            1 <= unit,
            unit * rest <= n,
        decreases rest,
    {
        proof {
            lemma_spacing_doubles(unit as nat, rest as nat);
            let half = rest / 2;
            assert(unit <= 0x7ff) by (nonlinear_arith)
                requires
                    unit * rest <= n,
                    rest >= 0x20_0000_0000_0000,
                    n <= 0xffff_ffff_ffff_ffff,
            ;
            assert((2 * unit) * half <= unit * rest) by (nonlinear_arith)
                requires
                    half == rest / 2,
                    1 <= unit,
            ;
        }
        rest = rest / 2;
        unit = unit * 2;
    }
    proof {
        assert(unit * 1 == unit) by (nonlinear_arith);
        lemma_spacing_bound(n as nat);
    }
    unit
}

proof fn lemma_spacing_bound(n: nat)
    requires
        n <= u64::MAX,
    ensures
        double_spacing(n) <= 0x800,
{
    reveal_with_fuel(double_spacing, 13);
}

fn nearest_double(n: u64) -> (double: u128)
    ensures
        double == as_double(n as nat),
        double <= 0x1_0000_0000_0000_0800,
{
    let unit = spacing_of(n);
    let count = divide_to_nearest(n as u128, unit);
    assert(count * unit <= n + unit) by (nonlinear_arith)
        requires
            count <= n as int / unit as int + 1,
            unit >= 1,
    ;
    count * unit
}

fn tenths_of(n: u64, scale: u64) -> (tenths: u64)
    requires
        scale >= KILO,
    ensures
        tenths == in_tenths(n as nat, scale as nat),
{
    let double = nearest_double(n);
    let tenths = divide_to_nearest(10 * double, scale as u128);
    assert(tenths <= 0xffff_ffff_ffff_ffff) by (nonlinear_arith)
        requires
            tenths <= (10 * double) / (scale as int) + 1,
            double <= 0x1_0000_0000_0000_0800,
            scale >= 0x400,
    ;
    tenths as u64
}

fn write_one_decimal(tenths: u64, unit: &str) -> (text: String)
    ensures
        text@ == one_decimal(tenths as nat) + unit@,
{
    let mut text = text::decimal_text(tenths / 10);
    text.append(".");
    text.append(text::decimal_text(tenths % 10).as_str());
    text.append(unit);
    text
}

/// Writes a size as people read it.
pub fn human(bytes: u64) -> (text: String)
    ensures
        text@ == size_text(bytes),
{
    if bytes >= GIGA {
        write_one_decimal(tenths_of(bytes, GIGA), " GB")
    } else if bytes >= MEGA {
        write_one_decimal(tenths_of(bytes, MEGA), " MB")
    } else if bytes >= KILO {
        write_one_decimal(tenths_of(bytes, KILO), " kB")
    } else {
        let mut text = text::decimal_text(bytes);
        text.append(" bytes");
        text
    }
}

/// Below two to the 53rd a size is written from its exact value.
pub proof fn ordinary_sizes_are_exact(n: u64, scale: nat)
    requires
        n < EXACT,
    ensures
        in_tenths(n as nat, scale) == nearest_quotient(10 * n as nat, scale),
{
    assert(nearest_quotient(n as nat, 1) == n) by {
        assert(n as nat / 1 == n && n as nat % 1 == 0) by (nonlinear_arith);
    }
    assert(n * 1 == n) by (nonlinear_arith);
}

/// How an upload that does not fit is answered.
pub open spec fn project_full(needed: u64, room: u64, cap: u64) -> ErrorView {
    refusal(
        413,
        "project_full"@,
        "That radargram is "@ + size_text(needed) + " and the project has "@ + size_text(room)
            + " left of its "@ + size_text(cap)
            + " limit. Remove something, or raise the limit with `max_bytes` under [radargrams] in ridal.toml."@,
    )
}

/// Refuses an upload that does not fit.
pub fn too_large(needed: u64, room: u64, cap: u64) -> (error: ApiError)
    ensures
        error@ == project_full(needed, room, cap),
{
    let mut message = "That radargram is ".to_owned();
    message.append(human(needed).as_str());
    message.append(" and the project has ");
    message.append(human(room).as_str());
    message.append(" left of its ");
    message.append(human(cap).as_str());
    message.append(
        " limit. Remove something, or raise the limit with `max_bytes` under [radargrams] in ridal.toml.",
    );
    ApiError::payload_too_large("project_full", message)
}

/// What a project has room for.
pub open spec fn room_left(cap: u64, used: u64) -> u64 {
    if used >= cap {
        0
    } else {
        (cap - used) as u64
    }
}

/// What a `Content-Length` header declares, where it declares anything.
pub open spec fn declared_length(header: Option<Seq<char>>) -> Option<u64> {
    match header {
        Some(text) => parsed_u64(text),
        None => None,
    }
}

/// Accepts an upload as far as its declared length goes, and says how much room
/// there is. A length that would not fit is refused before a byte is written;
/// a missing or unreadable one declares nothing.
pub fn accept_length(cap: u64, used: u64, content_length: &Option<String>) -> (room: Result<u64, ApiError>)
    ensures
        ({
            let left = room_left(cap, used);
            let declared = declared_length(content_length.deep_view());
            match room {
                Ok(room) => room == left && (declared is Some ==> declared->0 <= left),
                Err(error) => declared is Some && declared->0 > left && error@ == project_full(
                    declared->0,
                    left,
                    cap,
                ),
            }
        }),
{
    let room: u64 = if used >= cap {
        0
    } else {
        cap - used
    };
    let declared = match content_length {
        Some(header) => text::parse_u64(header.as_str()),
        None => None,
    };
    match declared {
        Some(length) => if length > room {
            Err(too_large(length, room, cap))
        } else {
            Ok(room)
        },
        None => Ok(room),
    }
}

/// How much of an upload is read before the size cap is consulted again.
pub const CHUNK_CHECK_BYTES: u64 = 0x80_0000;

/// Counts an upload as it arrives.
///
/// A declared length is a claim: it can be too small, or missing. The running
/// total is what enforces the cap.
#[derive(Debug, PartialEq, Eq)]
pub struct UploadMeter {
    pub room: u64,
    pub cap: u64,
    pub written: u64,
    pub since_check: u64,
}

impl UploadMeter {
    /// Whether the counts belong together: whatever came before the last
    /// check fitted.
    pub open spec fn well_formed(self) -> bool {
        &&& self.since_check <= self.written
        &&& self.since_check < self.written ==> self.written - self.since_check <= self.room
    }

    /// A meter for an upload that has not started.
    pub fn new(room: u64, cap: u64) -> (meter: UploadMeter)
        ensures
            meter == (UploadMeter { room, cap, written: 0, since_check: 0 }),
            meter.well_formed(),
    {
        UploadMeter { room, cap, written: 0, since_check: 0 }
    }

    /// Whether a chunk of this size is refused.
    pub open spec fn refuses(self, chunk: u64) -> bool {
        let written = self.written + chunk;
        let since = self.since_check + chunk;
        written > self.room && (since >= CHUNK_CHECK_BYTES || since >= written)
    }

    /// Counts a chunk before it is written, and refuses it where the total is
    /// over the room and a check is due.
    pub fn take(&mut self, chunk: u64) -> (verdict: Result<(), ApiError>)
        requires
            old(self).well_formed(),
            old(self).written + chunk <= u64::MAX,
        ensures
            final(self).well_formed() || verdict is Err,
            final(self).room == old(self).room,
            final(self).cap == old(self).cap,
            final(self).written == old(self).written + chunk,
            match verdict {
                Ok(_) => {
                    &&& !old(self).refuses(chunk)
                    &&& final(self).since_check == (if old(self).since_check + chunk
                        >= CHUNK_CHECK_BYTES {
                        0
                    } else {
                        old(self).since_check + chunk
                    })
                },
                Err(error) => {
                    &&& old(self).refuses(chunk)
                    &&& error@ == project_full(
                        (old(self).written + chunk) as u64,
                        old(self).room,
                        old(self).cap,
                    )
                },
            },
    {
        self.written = self.written + chunk;
        self.since_check = self.since_check + chunk;
        if self.written > self.room && (self.since_check >= CHUNK_CHECK_BYTES || self.since_check
            >= self.written) {
            return Err(too_large(self.written, self.room, self.cap));
        }
        if self.since_check >= CHUNK_CHECK_BYTES {
            self.since_check = 0;
        }
        Ok(())
    }

    /// How much was written, where all of it fits.
    pub fn finish(&self) -> (written: Result<u64, ApiError>)
        ensures
            match written {
                Ok(written) => written == self.written && self.written <= self.room,
                Err(error) => self.written > self.room && error@ == project_full(
                    self.written,
                    self.room,
                    self.cap,
                ),
            },
    {
        if self.written > self.room {
            Err(too_large(self.written, self.room, self.cap))
        } else {
            Ok(self.written)
        }
    }
}

/// An upload is stopped before it writes a whole check's worth more than there
/// is room for, however it declared its length.
pub proof fn an_upload_never_runs_far_over(meter: UploadMeter, chunk: u64)
    requires
        meter.well_formed(),
        !meter.refuses(chunk),
    ensures
        meter.written + chunk < meter.room + CHUNK_CHECK_BYTES || meter.written + chunk
            <= meter.room,
{
}

} // verus!
