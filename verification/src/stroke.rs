use vstd::prelude::*;

verus! {

/// `num / den` rounded to the nearest integer, halves away from zero;
/// both arguments non-negative, `den` positive.
pub open spec fn round_div(num: int, den: int) -> int {
    (2 * num + den) / (2 * den)
}

/// The larger absolute axis distance between two points: how many steps
/// the interpolated stroke takes.
pub open spec fn step_count(a: (u16, u16), b: (u16, u16)) -> int {
    let adx = if a.0 >= b.0 {
        a.0 - b.0
    } else {
        b.0 - a.0
    };
    let ady = if a.1 >= b.1 {
        a.1 - b.1
    } else {
        b.1 - a.1
    };
    if adx >= ady {
        adx
    } else {
        ady
    }
}

/// The point the stroke reaches at step `i` on its way from `start` to
/// `end`: one major-axis unit per step, the minor axis following at the
/// rounded proportional rate.
pub open spec fn path_point(start: (u16, u16), end: (u16, u16), i: int) -> (u16, u16) {
    let sx = start.0 as int;
    let sy = start.1 as int;
    let ex = end.0 as int;
    let ey = end.1 as int;
    let adx = if sx >= ex {
        sx - ex
    } else {
        ex - sx
    };
    let ady = if sy >= ey {
        sy - ey
    } else {
        ey - sy
    };
    let x_is_larger = adx > ady;
    let longer = if adx >= ady {
        adx
    } else {
        ady
    };
    let shorter = if adx >= ady {
        ady
    } else {
        adx
    };
    let inc = if longer == 0 {
        0
    } else {
        round_div(i * shorter, longer)
    };
    let xmod: int = if sx < ex {
        1
    } else {
        -1
    };
    let ymod: int = if sy < ey {
        1
    } else {
        -1
    };
    let xa = if x_is_larger {
        i
    } else {
        inc
    };
    let ya = if x_is_larger {
        inc
    } else {
        i
    };
    (((sx + xa * xmod) as u16), ((sy + ya * ymod) as u16))
}

/// The points a pointer-move paints: just the current point when there
/// is no previous one or it equals the current one, otherwise the taut
/// discrete line from the current point back to the previous one,
/// excluding the current point and ending on the previous one.
pub open spec fn stroke_path(start: (u16, u16), end: Option<(u16, u16)>) -> Seq<(u16, u16)> {
    match end {
        Option::None => seq![start],
        Option::Some(e) => if e == start {
            seq![start]
        } else {
            Seq::new(step_count(start, e) as nat, |i: int| path_point(start, e, i + 1))
        },
    }
}

/// The rounded proportional offset stays between zero and the full minor
/// distance, and never decreases from one step to the next.
pub proof fn lemma_round_div_bounds(i: int, m: int, big: int)
    requires
        0 <= i <= big,
        0 <= m <= big,
        0 < big,
    ensures
        0 <= round_div(i * m, big) <= m,
        i < big ==> round_div(i * m, big) <= round_div((i + 1) * m, big),
{
    let im = i * m;
    let bm = big * m;
    assert(0 <= im && im <= bm && 2 * bm + big == m * (2 * big) + big) by (nonlinear_arith)
        requires
            0 <= i <= big,
            0 <= m,
            im == i * m,
            bm == big * m,
    ;
    assert(round_div(im, big) == (2 * im + big) / (2 * big));
    assert((2 * im + big) / (2 * big) >= 0) by {
        vstd::arithmetic::div_mod::lemma_div_is_ordered(0, 2 * im + big, 2 * big);
    }
    assert((2 * im + big) / (2 * big) <= (2 * bm + big) / (2 * big)) by {
        vstd::arithmetic::div_mod::lemma_div_is_ordered(2 * im + big, 2 * bm + big, 2 * big);
    }
    assert((2 * bm + big) / (2 * big) == m) by {
        vstd::arithmetic::div_mod::lemma_fundamental_div_mod_converse(
            2 * bm + big,
            2 * big,
            m,
            big,
        );
    }
    if i < big {
        let im2 = (i + 1) * m;
        assert(im <= im2) by (nonlinear_arith)
            requires
                m >= 0,
                i >= 0,
                im == i * m,
                im2 == (i + 1) * m,
        ;
        assert((2 * im + big) / (2 * big) <= (2 * im2 + big) / (2 * big)) by {
            vstd::arithmetic::div_mod::lemma_div_is_ordered(2 * im + big, 2 * im2 + big, 2 * big);
        }
    }
}

/// Joins the current pointer position to the previous one: the ordered
/// points of the interpolated stroke.
pub fn connect_points(start: (u16, u16), end: Option<(u16, u16)>) -> (v: Vec<(u16, u16)>)
    ensures
        v@ == stroke_path(start, end),
{
    let e = match end {
        Option::None => {
            let mut v: Vec<(u16, u16)> = Vec::new();
            v.push(start);
            proof {
                assert(v@ =~= seq![start]);
            }
            return v;
        },
        Option::Some(e) => e,
    };
    if e.0 == start.0 && e.1 == start.1 {
        let mut v: Vec<(u16, u16)> = Vec::new();
        v.push(start);
        proof {
            assert(v@ =~= seq![start]);
        }
        return v;
    }
    let sx = start.0 as i64;
    let sy = start.1 as i64;
    let ex = e.0 as i64;
    let ey = e.1 as i64;
    let adx = if sx >= ex {
        sx - ex
    } else {
        ex - sx
    };
    let ady = if sy >= ey {
        sy - ey
    } else {
        ey - sy
    };
    let x_is_larger = adx > ady;
    let longer = if adx >= ady {
        adx
    } else {
        ady
    };
    let shorter = if adx >= ady {
        ady
    } else {
        adx
    };
    let mut out: Vec<(u16, u16)> = Vec::new();
    let mut i: i64 = 1;
    while i <= longer
        invariant
            1 <= i <= longer + 1,
            0 < longer <= u16::MAX as int,
            0 <= shorter <= longer,
            sx == start.0 as int && sy == start.1 as int,
            ex == e.0 as int && ey == e.1 as int,
            adx == (if sx >= ex {
                sx - ex
            } else {
                ex - sx
            }),
            ady == (if sy >= ey {
                sy - ey
            } else {
                ey - sy
            }),
            x_is_larger == (adx > ady),
            longer == (if adx >= ady {
                adx
            } else {
                ady
            }),
            shorter == (if adx >= ady {
                ady
            } else {
                adx
            }),
            out@ == Seq::new((i - 1) as nat, |k: int| path_point(start, e, k + 1)),
        decreases longer + 1 - i,
    {
        proof {
            lemma_round_div_bounds(i as int, shorter as int, longer as int);
            assert(0 <= 2 * i * shorter <= 2 * 65535 * 65535 && 2 * i * shorter == 2 * (i
                * shorter)) by (nonlinear_arith)
                requires
                    0 <= i <= 65535,
                    0 <= shorter <= 65535,
            ;
        }
        let inc = (2 * i * shorter + longer) / (2 * longer);
        proof {
            assert(inc == round_div(i as int * shorter as int, longer as int));
            assert(0 <= inc <= shorter);
        }
        let xa = if x_is_larger {
            i
        } else {
            inc
        };
        let ya = if x_is_larger {
            inc
        } else {
            i
        };
        let nx = if sx < ex {
            sx + xa
        } else {
            sx - xa
        };
        let ny = if sy < ey {
            sy + ya
        } else {
            sy - ya
        };
        proof {
            assert(0 <= nx <= u16::MAX as int);
            assert(0 <= ny <= u16::MAX as int);
        }
        out.push((nx as u16, ny as u16));
        proof {
            let ii = i as int;
            let s_inc: int = if longer as int == 0 {
                0
            } else {
                round_div(ii * (shorter as int), longer as int)
            };
            assert(s_inc == inc);
            let s_xa: int = if adx > ady {
                ii
            } else {
                s_inc
            };
            let s_ya: int = if adx > ady {
                s_inc
            } else {
                ii
            };
            let s_xmod: int = if (sx as int) < (ex as int) {
                1
            } else {
                -1
            };
            let s_ymod: int = if (sy as int) < (ey as int) {
                1
            } else {
                -1
            };
            assert(s_xa * s_xmod == if s_xmod == 1 {
                s_xa
            } else {
                -s_xa
            }) by (nonlinear_arith)
                requires
                    s_xmod == 1 || s_xmod == -1,
            ;
            assert(s_ya * s_ymod == if s_ymod == 1 {
                s_ya
            } else {
                -s_ya
            }) by (nonlinear_arith)
                requires
                    s_ymod == 1 || s_ymod == -1,
            ;
            assert(sx as int + s_xa * s_xmod == nx as int);
            assert(sy as int + s_ya * s_ymod == ny as int);
            assert((nx as u16, ny as u16) == path_point(start, e, i as int));
            assert(out@ =~= Seq::new(i as nat, |k: int| path_point(start, e, k + 1)));
        }
        i = i + 1;
    }
    proof {
        assert(out@ =~= stroke_path(start, end));
    }
    out
}

} // verus!
