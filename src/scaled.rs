use vstd::prelude::*;

use crate::decimal::{number_text, pow10, push_number, push_shortest, round_to, rounded_to, shortest_text};
use crate::throughput::Throughput;

verus! {

/// Picoseconds in one second.
pub const PS_PER_SEC: u128 = 1_000_000_000_000;

/// A value ready for display: the number `digits / 10^decimals` in `unit`.
#[derive(Debug, Clone, Copy)]
pub struct Scaled {
    pub digits: u128,
    pub decimals: u32,
    pub unit: &'static str,
}

/// The value can be rendered: at most twelve digits after the point, and
/// room to widen it to two.
pub open spec fn scaled_ok(digits: int, decimals: int) -> bool {
    &&& decimals <= 12
    &&& decimals < 2 ==> digits * 100 <= u128::MAX
}

/// Digits after the point of a time of `ps` picoseconds in its unit.
pub open spec fn time_decimals(ps: int) -> int {
    if ps < 1_000 {
        0
    } else if ps < 1_000_000 {
        3
    } else if ps < 1_000_000_000 {
        6
    } else if ps < 1_000_000_000_000 {
        9
    } else {
        12
    }
}

/// Unit of a time of `ps` picoseconds: the largest of ps, ns, µs, ms and s
/// in which it is at least one (ps below one nanosecond).
pub open spec fn time_unit(ps: int) -> Seq<char> {
    if ps < 1_000 {
        "ps"@
    } else if ps < 1_000_000 {
        "ns"@
    } else if ps < 1_000_000_000 {
        "µs"@
    } else if ps < 1_000_000_000_000 {
        "ms"@
    } else {
        "s"@
    }
}

/// Amount of work declared for one call.
pub open spec fn amount(t: Throughput) -> int {
    match t {
        Throughput::Bytes(n) => n as int,
        Throughput::Items(n) => n as int,
    }
}

/// Factor between successive rate units: 1024 for bytes, 1000 for items.
pub open spec fn rate_base(t: Throughput) -> int {
    match t {
        Throughput::Bytes(_) => 1024,
        Throughput::Items(_) => 1000,
    }
}

/// A call time taken as at least one picosecond, so a rate is always finite.
pub open spec fn call_ps(ps: int) -> int {
    if ps < 1 {
        1
    } else {
        ps
    }
}

/// `base^k` for the four rate levels.
pub open spec fn level_denom(base: int, k: int) -> int {
    if k == 0 {
        1
    } else if k == 1 {
        base
    } else if k == 2 {
        base * base
    } else {
        base * base * base
    }
}

/// Rate level (0 to 3) of `t` done once every `ps` picoseconds: the least
/// `k < 3` with a rate below `base^(k+1)` per second, else 3.
pub open spec fn rate_level(ps: int, t: Throughput) -> int {
    let work = amount(t) * PS_PER_SEC;
    let b = rate_base(t);
    let p = call_ps(ps);
    if work < b * p {
        0
    } else if work < b * b * p {
        1
    } else if work < b * b * b * p {
        2
    } else {
        3
    }
}

/// The rate in its unit, in millionths, rounded down.
pub open spec fn rate_digits(ps: int, t: Throughput) -> int {
    amount(t) * PS_PER_SEC * 1_000_000 / (call_ps(ps) * level_denom(rate_base(t), rate_level(ps, t)))
}

/// Unit of the rate of `t` done once every `ps` picoseconds.
pub open spec fn rate_unit(ps: int, t: Throughput) -> Seq<char> {
    let k = rate_level(ps, t);
    match t {
        Throughput::Bytes(_) => if k == 0 {
            "B/s"@
        } else if k == 1 {
            "KiB/s"@
        } else if k == 2 {
            "MiB/s"@
        } else {
            "GiB/s"@
        },
        Throughput::Items(_) => if k == 0 {
            "elem/s"@
        } else if k == 1 {
            "Kelem/s"@
        } else if k == 2 {
            "Melem/s"@
        } else {
            "Gelem/s"@
        },
    }
}

/// Text of a scaled value with the fewest digits that show it exactly.
pub open spec fn short_text(digits: int, decimals: int, unit: Seq<char>) -> Seq<char> {
    shortest_text(digits as nat, decimals as nat) + " "@ + unit
}

/// Text of a scaled value rounded to two digits after the point.
pub open spec fn fixed_text(digits: int, decimals: int, unit: Seq<char>) -> Seq<char> {
    number_text(rounded_to(digits as nat, decimals as nat, 2), 2) + " "@ + unit
}

/// A time of `ps` picoseconds in its unit.
pub fn scale_time(ps: u64) -> (r: Scaled)
    ensures
        r.digits == ps,
        r.decimals == time_decimals(ps as int),
        r.unit@ == time_unit(ps as int),
        scaled_ok(r.digits as int, r.decimals as int),
{
    let (decimals, unit): (u32, &'static str) = if ps < 1_000 {
        (0, "ps")
    } else if ps < 1_000_000 {
        (3, "ns")
    } else if ps < 1_000_000_000 {
        (6, "µs")
    } else if ps < 1_000_000_000_000 {
        (9, "ms")
    } else {
        (12, "s")
    };
    Scaled { digits: ps as u128, decimals, unit }
}

/// The rate of `throughput` done once every `ps` picoseconds, in the
/// largest unit in which it is at least one (to six digits after the
/// point, rounded down). Byte units step by 1024, item units by 1000.
pub fn scale_throughput(ps: u64, throughput: Throughput) -> (r: Scaled)
    ensures
        r.digits == rate_digits(ps as int, throughput),
        r.decimals == 6,
        r.unit@ == rate_unit(ps as int, throughput),
        scaled_ok(r.digits as int, r.decimals as int),
{
    let (n, base): (u64, u128) = match throughput {
        Throughput::Bytes(n) => (n, 1024),
        Throughput::Items(n) => (n, 1000),
    };
    let p: u128 = if ps < 1 {
        1
    } else {
        ps as u128
    };
    let work: u128 = n as u128 * PS_PER_SEC;
    let b1 = base * p;
    let b2 = base * base * p;
    let b3 = base * base * base * p;
    proof {
        assert(base * base * base * p <= 1024 * 1024 * 1024 * u64::MAX) by (nonlinear_arith)
            requires
                base <= 1024,
                p <= u64::MAX,
        ;
    }
    let level: u32 = if work < b1 {
        0
    } else if work < b2 {
        1
    } else if work < b3 {
        2
    } else {
        3
    };
    let denom: u128 = if level == 0 {
        p
    } else if level == 1 {
        b1
    } else if level == 2 {
        b2
    } else {
        b3
    };
    proof {
        assert(denom == p * level_denom(base as int, level as int)) by (nonlinear_arith)
            requires
                level == 0 ==> denom == p,
                level == 1 ==> denom == base * p,
                level == 2 ==> denom == base * base * p,
                level == 3 ==> denom == base * base * base * p,
                level <= 3,
                level_denom(base as int, level as int) == if level == 0 {
                    1
                } else if level == 1 {
                    base as int
                } else if level == 2 {
                    base * base
                } else {
                    base * base * base
                },
        ;
        assert(denom >= 1) by (nonlinear_arith)
            requires
                denom == p * level_denom(base as int, level as int),
                p >= 1,
                base >= 1,
                level_denom(base as int, level as int) >= 1,
        ;
    }
    let digits = work * 1_000_000 / denom;
    let unit: &'static str = match throughput {
        Throughput::Bytes(_) => if level == 0 {
            "B/s"
        } else if level == 1 {
            "KiB/s"
        } else if level == 2 {
            "MiB/s"
        } else {
            "GiB/s"
        },
        Throughput::Items(_) => if level == 0 {
            "elem/s"
        } else if level == 1 {
            "Kelem/s"
        } else if level == 2 {
            "Melem/s"
        } else {
            "Gelem/s"
        },
    };
    Scaled { digits, decimals: 6, unit }
}

impl Scaled {
    /// The value with the fewest digits that show it exactly, then a space
    /// and the unit: `500 ns`, `1.5 ms`.
    pub fn render(&self) -> (r: String)
        requires
            scaled_ok(self.digits as int, self.decimals as int),
        ensures
            r@ == short_text(self.digits as int, self.decimals as int, self.unit@),
    {
        let mut out = String::new();
        push_shortest(self.digits, self.decimals, &mut out);
        out.append(" ");
        out.append(self.unit);
        out
    }

    /// Appends the value rounded to two digits after the point, a space and
    /// the unit: `1.50 ms`.
    pub fn push_fixed(&self, out: &mut String)
        requires
            scaled_ok(self.digits as int, self.decimals as int),
        ensures
            final(out)@ == old(out)@ + fixed_text(
                self.digits as int,
                self.decimals as int,
                self.unit@,
            ),
    {
        proof {
            if self.decimals <= 2 {
                let e = (2 - self.decimals) as nat;
                reveal_with_fuel(pow10, 3);
                assert(1 <= pow10(e) <= 100);
                if self.decimals < 2 {
                    let dg = self.digits as int;
                    assert(dg * pow10(e) <= dg * 100) by (nonlinear_arith)
                        requires
                            pow10(e) <= 100,
                            dg >= 0,
                    ;
                    assert(dg * 100 <= u128::MAX);
                } else {
                    assert(pow10(e) == 1);
                    let dg = self.digits as int;
                    assert(dg * pow10(e) <= u128::MAX) by (nonlinear_arith)
                        requires
                            pow10(e) == 1,
                            dg <= u128::MAX,
                    ;
                }
            }
        }
        let v = round_to(self.digits, self.decimals, 2);
        push_number(v, 2, out);
        out.append(" ");
        out.append(self.unit);
        assert(final(out)@ =~= old(out)@ + fixed_text(
            self.digits as int,
            self.decimals as int,
            self.unit@,
        ));
    }
}

} // verus!
