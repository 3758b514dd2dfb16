//! Normalized register captures.
//!
//! At each syscall-completion stop the tracer pulls the raw registers of the
//! 64-bit calling convention and rewrites the three leading argument
//! registers and the return register into small per-syscall identifiers, in
//! a fixed order, through one shared normalization table.

use crate::syscall_table::SyscallTable;
use crate::memtable::{
    replay_ids, replay_map, replay_next, spec_obtain_id, spec_obtain_ids, spec_obtain_next,
    MetaMemoryTable, MetaModel,
};
use vstd::prelude::*;

verus! {

/// The raw register values of one syscall-stop, as read from the tracee:
/// the syscall number and the registers the trace line reports.
#[derive(Debug, Clone, Copy, PartialEq, Eq, Structural)]
pub struct Regs {
    pub orig_rax: u64,
    pub rdi: u64,
    pub rsi: u64,
    pub rdx: u64,
    pub rax: u64,
}

impl Regs {
    /// The raw values that get normalized, in the order they are interned:
    /// the three leading arguments, then the return value.
    pub open spec fn norm_inputs(&self) -> Seq<u64> {
        seq![self.rdi, self.rsi, self.rdx, self.rax]
    }
}

/// One completed syscall, normalized: the syscall number stays raw, the
/// argument and return registers carry their per-syscall identifiers.
#[derive(Debug, Clone, Copy, PartialEq, Eq, Structural)]
pub struct I64Regs {
    pub orig_rax: u64,
    pub rdi: i64,
    pub rsi: i64,
    pub rdx: i64,
    pub rax: i64,
}

impl I64Regs {
    /// Normalizes one raw register capture against the session table: the
    /// four values are interned under the capture's own syscall number, in
    /// the fixed order `rdi, rsi, rdx, rax`.  Returns `None` exactly when
    /// that syscall number's identifier space cannot be guaranteed to take
    /// four more first-seen values, leaving the table untouched.
    pub fn from_regs(regs: &Regs, mt: &mut MetaMemoryTable) -> (r: Option<I64Regs>)
        requires
            old(mt).inv(),
        ensures
            final(mt).inv(),
            r is Some <==> old(mt).inner_next(regs.orig_rax) <= i64::MAX - 4,
            r is None ==> final(mt).tables() == old(mt).tables(),
            r matches Some(nr) ==> {
                let ids0 = old(mt).inner_ids(regs.orig_rax);
                let next0 = old(mt).inner_next(regs.orig_rax);
                let out = replay_ids(ids0, next0, regs.norm_inputs());
                &&& nr.orig_rax == regs.orig_rax
                &&& nr.rdi == out[0]
                &&& nr.rsi == out[1]
                &&& nr.rdx == out[2]
                &&& nr.rax == out[3]
                &&& final(mt).inner_ids(regs.orig_rax) == replay_map(
                    ids0,
                    next0,
                    regs.norm_inputs(),
                )
                &&& final(mt).inner_next(regs.orig_rax) == replay_next(
                    ids0,
                    next0,
                    regs.norm_inputs(),
                )
            },
            r is Some ==> forall|c: u64| c != regs.orig_rax ==> #[trigger] final(mt).inner_ids(c)
                == old(mt).inner_ids(c),
            r is Some ==> forall|c: u64| c != regs.orig_rax ==> #[trigger] final(mt).inner_next(c)
                == old(mt).inner_next(c),
            r matches Some(nr) ==> nr == norm_call(old(mt).model(), *regs) && final(mt).model()
                == norm_after(old(mt).model(), *regs),
    {
        let call = regs.orig_rax;
        if mt.counter_of(call) > i64::MAX - 4 {
            return None;
        }
        let ghost m0 = *mt;
        let rdi = mt.obtain((call, regs.rdi));
        let ghost m1 = *mt;
        let rsi = mt.obtain((call, regs.rsi));
        let ghost m2 = *mt;
        let rdx = mt.obtain((call, regs.rdx));
        let ghost m3 = *mt;
        let rax = mt.obtain((call, regs.rax));
        proof {
            let m4 = *mt;
            let vals = regs.norm_inputs();
            let ids0 = m0.inner_ids(call);
            let next0 = m0.inner_next(call);
            let ids1 = m1.inner_ids(call);
            let next1 = m1.inner_next(call);
            let ids2 = m2.inner_ids(call);
            let next2 = m2.inner_next(call);
            let ids3 = m3.inner_ids(call);
            let next3 = m3.inner_next(call);
            let ids4 = m4.inner_ids(call);
            let next4 = m4.inner_next(call);
            assert(ids1 == spec_obtain_ids(ids0, next0, regs.rdi) && next1 == spec_obtain_next(
                ids0,
                next0,
                regs.rdi,
            ) && rdi == spec_obtain_id(ids0, next0, regs.rdi));
            assert(ids2 == spec_obtain_ids(ids1, next1, regs.rsi) && next2 == spec_obtain_next(
                ids1,
                next1,
                regs.rsi,
            ) && rsi == spec_obtain_id(ids1, next1, regs.rsi));
            assert(ids3 == spec_obtain_ids(ids2, next2, regs.rdx) && next3 == spec_obtain_next(
                ids2,
                next2,
                regs.rdx,
            ) && rdx == spec_obtain_id(ids2, next2, regs.rdx));
            assert(ids4 == spec_obtain_ids(ids3, next3, regs.rax) && next4 == spec_obtain_next(
                ids3,
                next3,
                regs.rax,
            ) && rax == spec_obtain_id(ids3, next3, regs.rax));
            let t1 = vals.subrange(1, 4);
            let t2 = t1.subrange(1, 3);
            let t3 = t2.subrange(1, 2);
            let t4 = t3.subrange(1, 1);
            assert(t1 =~= seq![regs.rsi, regs.rdx, regs.rax]);
            assert(t2 =~= seq![regs.rdx, regs.rax]);
            assert(t3 =~= seq![regs.rax]);
            assert(t4 =~= Seq::<u64>::empty());
            assert(replay_ids(ids3, next3, t3) == seq![rax] + replay_ids(ids4, next4, t4));
            assert(replay_ids(ids4, next4, t4) =~= Seq::<i64>::empty());
            assert(replay_ids(ids2, next2, t2) == seq![rdx] + replay_ids(ids3, next3, t3));
            assert(replay_ids(ids1, next1, t1) == seq![rsi] + replay_ids(ids2, next2, t2));
            assert(replay_ids(ids0, next0, vals) == seq![rdi] + replay_ids(ids1, next1, t1));
            assert(replay_ids(ids0, next0, vals) =~= seq![rdi, rsi, rdx, rax]);
            assert(replay_map(ids0, next0, vals) == replay_map(ids1, next1, t1));
            assert(replay_map(ids1, next1, t1) == replay_map(ids2, next2, t2));
            assert(replay_map(ids2, next2, t2) == replay_map(ids3, next3, t3));
            assert(replay_map(ids3, next3, t3) == replay_map(ids4, next4, t4));
            assert(replay_map(ids4, next4, t4) == ids4);
            assert(replay_next(ids0, next0, vals) == replay_next(ids1, next1, t1));
            assert(replay_next(ids1, next1, t1) == replay_next(ids2, next2, t2));
            assert(replay_next(ids2, next2, t2) == replay_next(ids3, next3, t3));
            assert(replay_next(ids3, next3, t3) == replay_next(ids4, next4, t4));
            assert(replay_next(ids4, next4, t4) == next4);
            assert(m0.model().ids[call] == ids0 && m0.model().next[call] == next0);
            assert(m4.model().ids =~= norm_after(m0.model(), *regs).ids);
            assert(m4.model().next =~= norm_after(m0.model(), *regs).next);
        }
        Some(I64Regs { orig_rax: call, rdi, rsi, rdx, rax })
    }

    /// Renders this normalized call as one trace line,
    /// `name(arg1, arg2, arg3, ...) = retval`, with the identifiers in
    /// lowercase hexadecimal and the name looked up totally (an unknown
    /// syscall number prints the placeholder, never panics).
    pub fn format(&self, syscall_table: &SyscallTable) -> (s: String)
        ensures
            s@ == spec_format_line(
                syscall_table.spec_name_of(self.orig_rax),
                self.rdi as u64,
                self.rsi as u64,
                self.rdx as u64,
                self.rax as u64,
            ),
    {
        let mut s = syscall_table.name_of(self.orig_rax);
        s.append("(");
        let h1 = u64_to_hex(self.rdi as u64);
        s.append(h1.as_str());
        s.append(", ");
        let h2 = u64_to_hex(self.rsi as u64);
        s.append(h2.as_str());
        s.append(", ");
        let h3 = u64_to_hex(self.rdx as u64);
        s.append(h3.as_str());
        s.append(", ...) = ");
        let h4 = u64_to_hex(self.rax as u64);
        s.append(h4.as_str());
        proof {
            reveal_strlit("(");
            reveal_strlit(", ");
            reveal_strlit(", ...) = ");
            assert(s@ =~= spec_format_line(
                syscall_table.spec_name_of(self.orig_rax),
                self.rdi as u64,
                self.rsi as u64,
                self.rdx as u64,
                self.rax as u64,
            ));
        }
        s
    }
}

/// The normalized call one capture yields on a session table in state `m`.
pub open spec fn norm_call(m: MetaModel, r: Regs) -> I64Regs {
    let out = replay_ids(m.ids[r.orig_rax], m.next[r.orig_rax], r.norm_inputs());
    I64Regs { orig_rax: r.orig_rax, rdi: out[0], rsi: out[1], rdx: out[2], rax: out[3] }
}

/// The session table's state after that capture.
pub open spec fn norm_after(m: MetaModel, r: Regs) -> MetaModel {
    MetaModel {
        ids: m.ids.insert(
            r.orig_rax,
            replay_map(m.ids[r.orig_rax], m.next[r.orig_rax], r.norm_inputs()),
        ),
        next: m.next.insert(
            r.orig_rax,
            replay_next(m.ids[r.orig_rax], m.next[r.orig_rax], r.norm_inputs()),
        ),
    }
}

/// The normalized calls a whole sequence of captures yields, in order,
/// each against the table state the captures before it left behind.
pub open spec fn norm_seq(m: MetaModel, rs: Seq<Regs>) -> Seq<I64Regs>
    decreases rs.len(),
{
    if rs.len() == 0 {
        Seq::<I64Regs>::empty()
    } else {
        seq![norm_call(m, rs[0])] + norm_seq(norm_after(m, rs[0]), rs.subrange(1, rs.len() as int))
    }
}

/// The session table's state after that whole sequence of captures.
pub open spec fn norm_model(m: MetaModel, rs: Seq<Regs>) -> MetaModel
    decreases rs.len(),
{
    if rs.len() == 0 {
        m
    } else {
        norm_model(norm_after(m, rs[0]), rs.subrange(1, rs.len() as int))
    }
}

/// One more capture extends the normalized sequence by one call, computed
/// against the state the earlier captures reached.
pub proof fn lemma_norm_snoc(m: MetaModel, rs: Seq<Regs>, r: Regs)
    ensures
        norm_seq(m, rs.push(r)) == norm_seq(m, rs).push(norm_call(norm_model(m, rs), r)),
        norm_model(m, rs.push(r)) == norm_after(norm_model(m, rs), r),
    decreases rs.len(),
{
    if rs.len() == 0 {
        let empty = Seq::<Regs>::empty();
        assert(rs.push(r)[0] == r);
        assert(rs.push(r).subrange(1, 1) =~= empty);
        assert(norm_seq(norm_after(m, r), empty) == Seq::<I64Regs>::empty());
        assert(norm_model(norm_after(m, r), empty) == norm_after(m, r));
        assert(norm_seq(m, rs.push(r)) == seq![norm_call(m, r)] + norm_seq(
            norm_after(m, r),
            empty,
        ));
        assert(norm_model(m, rs.push(r)) == norm_model(norm_after(m, r), empty));
        assert(norm_seq(m, rs) == Seq::<I64Regs>::empty());
        assert(norm_model(m, rs) == m);
        assert(norm_seq(m, rs.push(r)) =~= norm_seq(m, rs).push(norm_call(norm_model(m, rs), r)));
    } else {
        let rest = rs.subrange(1, rs.len() as int);
        assert(rs.push(r)[0] == rs[0]);
        assert(rs.push(r).subrange(1, rs.len() + 1 as int) =~= rest.push(r));
        lemma_norm_snoc(norm_after(m, rs[0]), rest, r);
        assert(norm_seq(m, rs.push(r)) == seq![norm_call(m, rs[0])] + norm_seq(
            norm_after(m, rs[0]),
            rest.push(r),
        ));
        assert(norm_seq(m, rs) == seq![norm_call(m, rs[0])] + norm_seq(norm_after(m, rs[0]), rest));
        assert(norm_model(m, rs.push(r)) == norm_model(norm_after(m, rs[0]), rest.push(r)));
        assert(norm_model(m, rs) == norm_model(norm_after(m, rs[0]), rest));
        assert(norm_seq(m, rs.push(r)) =~= norm_seq(m, rs).push(norm_call(norm_model(m, rs), r)));
    }
}

/// The lowercase hexadecimal digit for `d < 16`.
pub open spec fn hex_char(d: u64) -> char {
    if d == 0 {
        '0'
    } else if d == 1 {
        '1'
    } else if d == 2 {
        '2'
    } else if d == 3 {
        '3'
    } else if d == 4 {
        '4'
    } else if d == 5 {
        '5'
    } else if d == 6 {
        '6'
    } else if d == 7 {
        '7'
    } else if d == 8 {
        '8'
    } else if d == 9 {
        '9'
    } else if d == 10 {
        'a'
    } else if d == 11 {
        'b'
    } else if d == 12 {
        'c'
    } else if d == 13 {
        'd'
    } else if d == 14 {
        'e'
    } else {
        'f'
    }
}

/// The lowercase hexadecimal rendering of `v`, most significant digit
/// first, with no leading zeros (`0` renders as one digit).
pub open spec fn hex_seq(v: u64) -> Seq<char>
    decreases v,
{
    if v < 16 {
        seq![hex_char(v)]
    } else {
        hex_seq(v / 16) + seq![hex_char(v % 16)]
    }
}

/// Appends the digit character of `d` to `s`.
fn push_hex_digit(s: &mut String, d: u64)
    requires
        d < 16,
    ensures
        final(s)@ == old(s)@ + seq![hex_char(d)],
{
    match d {
        0 => {
            s.append("0");
            proof {
                reveal_strlit("0");
                assert(final(s)@ =~= old(s)@ + seq![hex_char(d)]);
            }
        },
        1 => {
            s.append("1");
            proof {
                reveal_strlit("1");
                assert(final(s)@ =~= old(s)@ + seq![hex_char(d)]);
            }
        },
        2 => {
            s.append("2");
            proof {
                reveal_strlit("2");
                assert(final(s)@ =~= old(s)@ + seq![hex_char(d)]);
            }
        },
        3 => {
            s.append("3");
            proof {
                reveal_strlit("3");
                assert(final(s)@ =~= old(s)@ + seq![hex_char(d)]);
            }
        },
        4 => {
            s.append("4");
            proof {
                reveal_strlit("4");
                assert(final(s)@ =~= old(s)@ + seq![hex_char(d)]);
            }
        },
        5 => {
            s.append("5");
            proof {
                reveal_strlit("5");
                assert(final(s)@ =~= old(s)@ + seq![hex_char(d)]);
            }
        },
        6 => {
            s.append("6");
            proof {
                reveal_strlit("6");
                assert(final(s)@ =~= old(s)@ + seq![hex_char(d)]);
            }
        },
        7 => {
            s.append("7");
            proof {
                reveal_strlit("7");
                assert(final(s)@ =~= old(s)@ + seq![hex_char(d)]);
            }
        },
        8 => {
            s.append("8");
            proof {
                reveal_strlit("8");
                assert(final(s)@ =~= old(s)@ + seq![hex_char(d)]);
            }
        },
        9 => {
            s.append("9");
            proof {
                reveal_strlit("9");
                assert(final(s)@ =~= old(s)@ + seq![hex_char(d)]);
            }
        },
        10 => {
            s.append("a");
            proof {
                reveal_strlit("a");
                assert(final(s)@ =~= old(s)@ + seq![hex_char(d)]);
            }
        },
        11 => {
            s.append("b");
            proof {
                reveal_strlit("b");
                assert(final(s)@ =~= old(s)@ + seq![hex_char(d)]);
            }
        },
        12 => {
            s.append("c");
            proof {
                reveal_strlit("c");
                assert(final(s)@ =~= old(s)@ + seq![hex_char(d)]);
            }
        },
        13 => {
            s.append("d");
            proof {
                reveal_strlit("d");
                assert(final(s)@ =~= old(s)@ + seq![hex_char(d)]);
            }
        },
        14 => {
            s.append("e");
            proof {
                reveal_strlit("e");
                assert(final(s)@ =~= old(s)@ + seq![hex_char(d)]);
            }
        },
        _ => {
            s.append("f");
            proof {
                reveal_strlit("f");
                assert(final(s)@ =~= old(s)@ + seq![hex_char(d)]);
            }
        },
    }
}

/// One trace line: the syscall name, the three normalized argument
/// identifiers and the normalized return identifier, all in lowercase
/// hexadecimal of their 64-bit two's-complement bit patterns.
pub open spec fn spec_format_line(name: Seq<char>, a: u64, b: u64, c: u64, r: u64) -> Seq<char> {
    name + seq!['('] + hex_seq(a) + seq![',', ' '] + hex_seq(b) + seq![',', ' '] + hex_seq(c)
        + seq![',', ' ', '.', '.', '.', ')', ' ', '=', ' '] + hex_seq(r)
}

/// Renders `v` in lowercase hexadecimal, as the raw trace line does.
pub fn u64_to_hex(v: u64) -> (s: String)
    ensures
        s@ == hex_seq(v),
    decreases v,
{
    if v < 16 {
        let mut s = String::new();
        push_hex_digit(&mut s, v);
        proof {
            assert(s@ =~= hex_seq(v));
        }
        s
    } else {
        proof {
            assert(v / 16 < v) by (nonlinear_arith)
                requires
                    v >= 16,
            ;
        }
        let mut s = u64_to_hex(v / 16);
        push_hex_digit(&mut s, v % 16);
        s
    }
}

} // verus!
