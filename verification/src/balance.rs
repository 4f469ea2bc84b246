//! Flags token `transfer`/`transfer_from` calls in `#[contractimpl]` methods that lack
//! a preceding `balance()` or `authorized()` check.
//!
//! Calls are qualified by receiver: only calls on a local binding initialised from
//! `token::Client::new(...)` (or `TokenClient::new(...)`) count.
use vstd::prelude::*;
use crate::finding::{findings_view, lemma_findings_view_push, Check, Finding, FindingView, Severity};
use crate::syntax::{block_nodes, nodes_block, Block, Expr, ImplFn, ItemImpl, Node, SourceFile, Stmt};
use crate::text::str_eq;
use crate::util::{contract_methods, contractimpl_functions_with_type_excluding_test, pat_ident_name, pat_ident_spec, vec_contains_str, views};
use crate::vec_growth::call_at;

verus! {

/// A source position `(line, column)`.
pub type Pos = (usize, usize);

/// `a` comes strictly before `b` (lexicographic order).
pub open spec fn pos_lt(a: Pos, b: Pos) -> bool {
    a.0 < b.0 || (a.0 == b.0 && a.1 < b.1)
}

/// `a` comes before `b` or equals it.
pub open spec fn pos_le(a: Pos, b: Pos) -> bool {
    a.0 < b.0 || (a.0 == b.0 && a.1 <= b.1)
}

fn pos_le_exec(a: Pos, b: Pos) -> (r: bool)
    ensures
        r == pos_le(a, b),
{
    a.0 < b.0 || (a.0 == b.0 && a.1 <= b.1)
}

fn pos_lt_exec(a: Pos, b: Pos) -> (r: bool)
    ensures
        r == pos_lt(a, b),
{
    a.0 < b.0 || (a.0 == b.0 && a.1 < b.1)
}

/// How many leading positions of `t` are at most `x`.
pub open spec fn leading_le(t: Seq<Pos>, x: Pos) -> nat
    decreases t.len(),
{
    if t.len() > 0 && pos_le(t[0], x) {
        1 + leading_le(t.drop_first(), x)
    } else {
        0
    }
}

/// `t` with `x` inserted after every leading position that is at most `x`.
pub open spec fn insert_position(t: Seq<Pos>, x: Pos) -> Seq<Pos> {
    t.insert(leading_le(t, x) as int, x)
}

/// The positions of `s` in increasing order (insertion sort: each position is inserted,
/// in turn, into the sorted earlier ones).
pub open spec fn sort_positions(s: Seq<Pos>) -> Seq<Pos>
    decreases s.len(),
{
    if s.len() == 0 {
        s
    } else {
        insert_position(sort_positions(s.drop_last()), s.last())
    }
}

proof fn lemma_leading_le(t: Seq<Pos>, x: Pos, k: int)
    requires
        0 <= k <= t.len(),
        forall|j: int| 0 <= j < k ==> pos_le(#[trigger] t[j], x),
    ensures
        leading_le(t, x) == k + leading_le(t.skip(k), x),
    decreases k,
{
    if k > 0 {
        assert(pos_le(t[0], x));
        lemma_leading_le(t.drop_first(), x, k - 1);
        assert(t.drop_first().skip(k - 1) =~= t.skip(k));
    } else {
        assert(t.skip(0) =~= t);
    }
}

proof fn lemma_leading_le_bound(t: Seq<Pos>, x: Pos)
    ensures
        leading_le(t, x) <= t.len(),
        forall|j: int| 0 <= j < leading_le(t, x) ==> pos_le(#[trigger] t[j], x),
        leading_le(t, x) < t.len() ==> !pos_le(t[leading_le(t, x) as int], x),
    decreases t.len(),
{
    if t.len() > 0 && pos_le(t[0], x) {
        lemma_leading_le_bound(t.drop_first(), x);
        assert forall|j: int| 0 <= j < leading_le(t, x) implies pos_le(#[trigger] t[j], x) by {
            if j > 0 {
                assert(t[j] == t.drop_first()[j - 1]);
            }
        }
    }
}

fn insert_sorted(v: &mut Vec<Pos>, x: Pos)
    ensures
        final(v)@ == insert_position(old(v)@, x),
{
    proof {
        lemma_leading_le_bound(v@, x);
    }
    let mut k: usize = 0;
    while k < v.len() && pos_le_exec(v[k], x)
        invariant
            0 <= k <= v.len(),
            k <= leading_le(v@, x),
            leading_le(v@, x) <= v@.len(),
            forall|j: int| 0 <= j < leading_le(v@, x) ==> pos_le(#[trigger] v@[j], x),
            leading_le(v@, x) < v@.len() ==> !pos_le(v@[leading_le(v@, x) as int], x),
        decreases v.len() - k,
    {
        k += 1;
    }
    assert(k == leading_le(v@, x));
    v.insert(k, x);
}

/// The positions in increasing order.
pub fn sort_positions_exec(s: &Vec<Pos>) -> (r: Vec<Pos>)
    ensures
        r@ == sort_positions(s@),
{
    let mut r: Vec<Pos> = Vec::new();
    let mut i: usize = 0;
    while i < s.len()
        invariant
            0 <= i <= s.len(),
            r@ == sort_positions(s@.take(i as int)),
        decreases s.len() - i,
    {
        assert(s@.take(i + 1).drop_last() =~= s@.take(i as int));
        insert_sorted(&mut r, s[i]);
        i += 1;
    }
    assert(s@.take(i as int) =~= s@);
    r
}

/// The identifier behind `x`, `&x` or `&mut x`.
pub open spec fn ident_of_spec(e: Expr) -> Option<Seq<char>>
    decreases e,
{
    match e {
        Expr::Reference(r) => ident_of_spec(*r),
        Expr::Path(p) => p.ident_of(),
        _ => None,
    }
}

pub fn ident_of(e: &Expr) -> (r: Option<&String>)
    ensures
        r matches Some(s) ==> ident_of_spec(*e) == Some(s@),
        r is None ==> ident_of_spec(*e) is None,
    decreases e,
{
    match e {
        Expr::Reference(r) => ident_of(r),
        Expr::Path(p) => p.get_ident(),
        _ => None,
    }
}

/// A call to a path ending in `Client::new` or `TokenClient::new` (looking through `&`).
pub open spec fn is_token_client_ctor_spec(e: Expr) -> bool
    decreases e,
{
    match e {
        Expr::Reference(r) => is_token_client_ctor_spec(*r),
        Expr::Call { func, args } => match *func {
            Expr::Path(p) => {
                let n = p.segments.len();
                n >= 2 && p.segments@[n - 1].ident@ == "new"@ && (p.segments@[n - 2].ident@ == "Client"@
                    || p.segments@[n - 2].ident@ == "TokenClient"@)
            },
            _ => false,
        },
        _ => false,
    }
}

pub fn expr_is_token_client_ctor(e: &Expr) -> (r: bool)
    ensures
        r == is_token_client_ctor_spec(*e),
    decreases e,
{
    match e {
        Expr::Reference(r) => expr_is_token_client_ctor(r),
        Expr::Call { func, args } => match &**func {
            Expr::Path(p) => {
                let n = p.segments.len();
                n >= 2 && str_eq(p.segments[n - 1].ident.as_str(), "new") && (str_eq(
                    p.segments[n - 2].ident.as_str(),
                    "Client",
                ) || str_eq(p.segments[n - 2].ident.as_str(), "TokenClient"))
            },
            _ => false,
        },
        _ => false,
    }
}

/// What the scan of a body has collected.
pub struct BalanceState {
    /// Names currently bound to a token client.
    pub bindings: Set<Seq<char>>,
    /// Positions of `transfer`/`transfer_from` calls on a token client.
    pub transfers: Seq<Pos>,
    /// Positions of `balance`/`authorized` calls on a token client.
    pub balances: Seq<Pos>,
}

/// The state after the first `k` nodes: a `let` binding a name to a token client adds
/// the name, a `let` binding it to anything else removes it; calls are recorded by the
/// position of their method name when their receiver is a bound token client.
pub open spec fn balance_scan(ns: Seq<Node>, k: int) -> BalanceState
    decreases k,
{
    if k <= 0 || k > ns.len() {
        BalanceState { bindings: Set::empty(), transfers: Seq::empty(), balances: Seq::empty() }
    } else {
        let st = balance_scan(ns, k - 1);
        match ns[k - 1] {
            Node::Local(s) => match s {
                Stmt::Local { pat, init, diverge } => match (pat_ident_spec(*pat), init) {
                    (Some(name), Some(x)) => if is_token_client_ctor_spec(**x) {
                        BalanceState { bindings: st.bindings.insert(name), ..st }
                    } else {
                        BalanceState { bindings: st.bindings.remove(name), ..st }
                    },
                    _ => st,
                },
                _ => st,
            },
            Node::Expr(e) => match e {
                Expr::MethodCall(m) => match ident_of_spec(*m.receiver) {
                    Some(r) => if st.bindings.contains(r) {
                        let pos = (m.method_line, m.method_column);
                        if m.method@ == "transfer"@ || m.method@ == "transfer_from"@ {
                            BalanceState { transfers: st.transfers.push(pos), ..st }
                        } else if m.method@ == "balance"@ || m.method@ == "authorized"@ {
                            BalanceState { balances: st.balances.push(pos), ..st }
                        } else {
                            st
                        }
                    } else {
                        st
                    },
                    None => st,
                },
                _ => st,
            },
            Node::Impl(_) => st,
        }
    }
}

/// Some balance/authorized call lies strictly between `prev` and `t`.
pub open spec fn guarded(prev: Pos, t: Pos, balances: Seq<Pos>) -> bool {
    exists|i: int| 0 <= i < balances.len() && pos_lt(prev, #[trigger] balances[i]) && pos_lt(balances[i], t)
}

pub open spec fn balance_finding(line: usize, name: Seq<char>) -> FindingView {
    FindingView {
        check_name: "missing-balance-check"@,
        severity: Severity::High,
        file_path: Seq::empty(),
        line,
        function_name: name,
        description: "Function `"@ + name
            + "` calls `transfer` or `transfer_from` without a preceding `balance()` or `authorized()` check. An invalid transfer may cause a runtime panic that disrupts multi-step atomic operations."@,
        rule_url: Some("https://github.com/SorobanGuard/Guard-CLI/blob/main/docs/checks.md#missing-balance-check-high"@),
        suggestion: Some(
            "Call `token_client.balance(&sender)` before transferring and verify the sender holds sufficient funds."@,
        ),
    }
}

/// Findings for the first `k` transfers (sorted): a transfer is reported unless a
/// balance/authorized call lies strictly between the previous transfer (or the start)
/// and it.
pub open spec fn unguarded_transfers(ts: Seq<Pos>, bs: Seq<Pos>, k: int, name: Seq<char>) -> Seq<FindingView>
    decreases k,
{
    if k <= 0 || k > ts.len() {
        Seq::empty()
    } else {
        let prev = if k == 1 {
            (0usize, 0usize)
        } else {
            ts[k - 2]
        };
        unguarded_transfers(ts, bs, k - 1, name) + if guarded(prev, ts[k - 1], bs) {
            Seq::empty()
        } else {
            seq![balance_finding(ts[k - 1].0, name)]
        }
    }
}

pub open spec fn balance_method_findings(f: &ImplFn) -> Seq<FindingView> {
    let ns = nodes_block(&f.block);
    let st = balance_scan(ns, ns.len() as int);
    let ts = sort_positions(st.transfers);
    unguarded_transfers(ts, st.balances, ts.len() as int, f.sig.ident@)
}

pub open spec fn balance_findings(ms: Seq<(&ItemImpl, &ImplFn)>, n: int) -> Seq<FindingView>
    decreases n,
{
    if n <= 0 || n > ms.len() {
        Seq::empty()
    } else {
        balance_findings(ms, n - 1) + balance_method_findings(ms[n - 1].1)
    }
}

/// Token-client call positions collected from one body.
pub struct BodyScan {
    pub token_bindings: Vec<String>,
    pub transfers: Vec<Pos>,
    pub balances: Vec<Pos>,
}

proof fn lemma_push_contains(a: Seq<Seq<char>>, x: Seq<char>, s: Seq<char>)
    ensures
        a.push(x).contains(s) <==> (a.contains(s) || x == s),
{
    if a.push(x).contains(s) {
        let j = choose|j: int| 0 <= j < a.push(x).len() && #[trigger] a.push(x)[j] == s;
        if j < a.len() {
            assert(a[j] == s);
        }
    }
    if a.contains(s) {
        let j = choose|j: int| 0 <= j < a.len() && #[trigger] a[j] == s;
        assert(a.push(x)[j] == s);
    }
    if x == s {
        assert(a.push(x)[a.len() as int] == s);
    }
}

fn remove_name(v: &mut Vec<String>, name: &String)
    ensures
        views(final(v)@).to_set() == views(old(v)@).to_set().remove(name@),
{
    let ghost before = views(v@);
    let mut kept: Vec<String> = Vec::new();
    let mut i: usize = 0;
    while i < v.len()
        invariant
            0 <= i <= v.len(),
            before == views(v@),
            forall|s: Seq<char>| #[trigger] views(kept@).contains(s) <==> (s != name@ && before.take(i as int).contains(s)),
        decreases v.len() - i,
    {
        let ghost prev = views(kept@);
        let ghost cur = v@[i as int]@;
        assert(before.take(i + 1) =~= before.take(i as int).push(cur));
        if !str_eq(v[i].as_str(), name.as_str()) {
            kept.push(v[i].clone());
            assert(views(kept@) =~= prev.push(cur));
            assert forall|s: Seq<char>| #[trigger] views(kept@).contains(s) <==> (s != name@ && before.take(i + 1).contains(s)) by {
                lemma_push_contains(prev, cur, s);
                lemma_push_contains(before.take(i as int), cur, s);
            }
        } else {
            assert forall|s: Seq<char>| #[trigger] views(kept@).contains(s) <==> (s != name@ && before.take(i + 1).contains(s)) by {
                lemma_push_contains(before.take(i as int), cur, s);
            }
        }
        i += 1;
    }
    assert(before.take(i as int) =~= before);
    *v = kept;
    assert(views(v@).to_set() =~= before.to_set().remove(name@));
}

fn insert_name(v: &mut Vec<String>, name: &String)
    ensures
        views(final(v)@).to_set() == views(old(v)@).to_set().insert(name@),
{
    let ghost before = views(v@);
    v.push(name.clone());
    assert(views(v@) =~= before.push(name@));
    assert forall|s: Seq<char>| views(v@).to_set().contains(s) <==> before.to_set().insert(name@).contains(s) by {
        lemma_push_contains(before, name@, s);
    }
    assert(views(v@).to_set() =~= before.to_set().insert(name@));
}

/// Collects token-client bindings and call positions from a body, in source order.
pub fn scan_body(b: &Block) -> (r: BodyScan)
    ensures
        ({
            let st = balance_scan(nodes_block(b), nodes_block(b).len() as int);
            &&& views(r.token_bindings@).to_set() == st.bindings
            &&& r.transfers@ == st.transfers
            &&& r.balances@ == st.balances
        }),
{
    let nodes = block_nodes(b);
    let mut scan = BodyScan { token_bindings: Vec::new(), transfers: Vec::new(), balances: Vec::new() };
    assert(views(scan.token_bindings@).to_set() =~= Set::<Seq<char>>::empty());
    let mut i: usize = 0;
    while i < nodes.len()
        invariant
            0 <= i <= nodes.len(),
            nodes@ == nodes_block(b),
            views(scan.token_bindings@).to_set() == balance_scan(nodes@, i as int).bindings,
            scan.transfers@ == balance_scan(nodes@, i as int).transfers,
            scan.balances@ == balance_scan(nodes@, i as int).balances,
        decreases nodes.len() - i,
    {
        match nodes[i] {
            Node::Local(s) => {
                if let Stmt::Local { pat, init, diverge } = s {
                    if let (Some(name), Some(x)) = (pat_ident_name(pat), init) {
                        if expr_is_token_client_ctor(x) {
                            insert_name(&mut scan.token_bindings, name);
                        } else {
                            remove_name(&mut scan.token_bindings, name);
                        }
                    }
                }
            },
            Node::Expr(e) => {
                if let Expr::MethodCall(m) = e {
                    if let Some(r) = ident_of(&m.receiver) {
                        if vec_contains_str(&scan.token_bindings, r.as_str()) {
                            proof {
                                assert(views(scan.token_bindings@).contains(r@) == views(scan.token_bindings@).to_set().contains(r@));
                            }
                            let pos = (m.method_line, m.method_column);
                            let name = m.method.as_str();
                            if str_eq(name, "transfer") || str_eq(name, "transfer_from") {
                                scan.transfers.push(pos);
                            } else if str_eq(name, "balance") || str_eq(name, "authorized") {
                                scan.balances.push(pos);
                            }
                        } else {
                            assert(!views(scan.token_bindings@).to_set().contains(r@));
                        }
                    }
                }
            },
            Node::Impl(_) => {},
        }
        i += 1;
    }
    scan
}

fn any_between(prev: Pos, t: Pos, balances: &Vec<Pos>) -> (r: bool)
    ensures
        r == guarded(prev, t, balances@),
{
    let mut i: usize = 0;
    while i < balances.len()
        invariant
            0 <= i <= balances.len(),
            forall|j: int| 0 <= j < i ==> !(pos_lt(prev, #[trigger] balances@[j]) && pos_lt(balances@[j], t)),
        decreases balances.len() - i,
    {
        if pos_lt_exec(prev, balances[i]) && pos_lt_exec(balances[i], t) {
            return true;
        }
        i += 1;
    }
    false
}

/// Token-client `transfer`/`transfer_from` calls in `#[contractimpl]` methods with no
/// token-client `balance`/`authorized` call since the previous transfer.
pub struct MissingBalanceCheck;

impl MissingBalanceCheck {
    fn finding_for(line: usize, name: &String) -> (r: Finding)
        ensures
            r@ == balance_finding(line, name@),
    {
        let mut description = String::from_str("Function `");
        description.append(name.as_str());
        description.append(
            "` calls `transfer` or `transfer_from` without a preceding `balance()` or `authorized()` check. An invalid transfer may cause a runtime panic that disrupts multi-step atomic operations.",
        );
        Finding {
            check_name: String::from_str("missing-balance-check"),
            severity: Severity::High,
            file_path: String::new(),
            line,
            function_name: name.clone(),
            description,
            rule_url: Some(
                String::from_str("https://github.com/SorobanGuard/Guard-CLI/blob/main/docs/checks.md#missing-balance-check-high"),
            ),
            suggestion: Some(
                String::from_str(
                    "Call `token_client.balance(&sender)` before transferring and verify the sender holds sufficient funds.",
                ),
            ),
        }
    }

    fn check_method(f: &ImplFn, out: &mut Vec<Finding>)
        ensures
            findings_view(final(out)@) == findings_view(old(out)@) + balance_method_findings(f),
    {
        let scan = scan_body(&f.block);
        let transfers = sort_positions_exec(&scan.transfers);
        let ghost base = findings_view(out@);
        let mut prev_transfer: Pos = (0, 0);
        let mut k: usize = 0;
        while k < transfers.len()
            invariant
                0 <= k <= transfers.len(),
                prev_transfer == (if k == 0 {
                    (0usize, 0usize)
                } else {
                    transfers@[k - 1]
                }),
                findings_view(out@) == base + unguarded_transfers(transfers@, scan.balances@, k as int, f.sig.ident@),
            decreases transfers.len() - k,
        {
            let transfer_pos = transfers[k];
            let ghost prev = out@;
            if !any_between(prev_transfer, transfer_pos, &scan.balances) {
                out.push(Self::finding_for(transfer_pos.0, &f.sig.ident));
                proof {
                    lemma_findings_view_push(prev, out@.last());
                    assert(out@ =~= prev.push(out@.last()));
                }
            }
            prev_transfer = transfer_pos;
            k += 1;
        }
    }
}

/// Missing balance check: on a name bound to a token client, a `transfer_from` call is
/// recorded as a transfer just as a `transfer` call is: scanning the call appends the
/// position of its method name to the transfers and leaves the bindings and the
/// balance/authorized calls as they were.
pub proof fn law_token_transfer_calls_are_recorded(ns: Seq<Node>, k: int, e: &Expr, r: Seq<char>)
    requires
        0 <= k < ns.len(),
        ns[k] == Node::Expr(e),
        *e matches Expr::MethodCall(m) && (m.method@ == "transfer"@ || m.method@ == "transfer_from"@),
        *e matches Expr::MethodCall(m) && ident_of_spec(*m.receiver) == Some(r),
        balance_scan(ns, k).bindings.contains(r),
    ensures
        *e matches Expr::MethodCall(m) && balance_scan(ns, k + 1).transfers == balance_scan(ns, k).transfers.push(
            (m.method_line, m.method_column),
        ),
        balance_scan(ns, k + 1).balances == balance_scan(ns, k).balances,
        balance_scan(ns, k + 1).bindings == balance_scan(ns, k).bindings,
{
}

/// Writing `transfer_from` in place of `transfer` (same receiver, same position) changes
/// nothing the scan of a body collects, hence nothing the check reports for the body.
pub proof fn law_transfer_from_scans_as_transfer(ns: Seq<Node>, k: int, e: &Expr, e2: &Expr, n: int)
    requires
        0 <= k < ns.len(),
        ns[k] == Node::Expr(e),
        *e matches Expr::MethodCall(m) && m.method@ == "transfer_from"@,
        *e2 matches Expr::MethodCall(m2) && m2.method@ == "transfer"@,
        *e matches Expr::MethodCall(m) && *e2 matches Expr::MethodCall(m2) && m.receiver == m2.receiver
            && m.method_line == m2.method_line && m.method_column == m2.method_column,
    ensures
        balance_scan(ns, n) == balance_scan(ns.update(k, Node::Expr(e2)), n),
    decreases n,
{
    let ns2 = ns.update(k, Node::Expr(e2));
    if n > 0 && n <= ns.len() {
        law_transfer_from_scans_as_transfer(ns, k, e, e2, n - 1);
        if n - 1 != k {
            assert(ns2[n - 1] == ns[n - 1]);
        }
    }
}

impl Check for MissingBalanceCheck {
    open spec fn name_spec(&self) -> Seq<char> {
        "missing-balance-check"@
    }

    open spec fn findings_spec(&self, file: &SourceFile) -> Seq<FindingView> {
        balance_findings(contract_methods(file), contract_methods(file).len() as int)
    }

    fn name(&self) -> (r: &str) {
        "missing-balance-check"
    }

    fn run(&self, file: &SourceFile, source: &str) -> (r: Vec<Finding>) {
        let methods = contractimpl_functions_with_type_excluding_test(file);
        let mut out: Vec<Finding> = Vec::new();
        let mut i: usize = 0;
        while i < methods.len()
            invariant
                0 <= i <= methods.len(),
                methods@ == contract_methods(file),
                findings_view(out@) == balance_findings(methods@, i as int),
            decreases methods.len() - i,
        {
            Self::check_method(methods[i].1, &mut out);
            i += 1;
        }
        out
    }
}

}
