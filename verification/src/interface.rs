//! Contract interfaces: operations with typed parameter schemas, canonical
//! signatures, derived selectors, and the textual serialization that the
//! interface cache stores (one canonical signature per line).

use vstd::prelude::*;
use crate::bytes::{bytes_eq, copy_range, match_at, spec_match_at};
use vstd::slice::slice_subrange;
use crate::hashing::{selector_of_signature, spec_selector_of};

verus! {

/// A parameter type of an operation's schema.
#[derive(Clone, Copy, Debug, PartialEq, Eq, Structural)]
pub enum ParamType {
    Uint256,
    Address,
    AddressArray,
}

/// The canonical spelling `uint256`.
pub open spec fn kw_uint256() -> Seq<u8> {
    seq![117u8, 105u8, 110u8, 116u8, 50u8, 53u8, 54u8]
}

/// The canonical spelling `address`.
pub open spec fn kw_address() -> Seq<u8> {
    seq![97u8, 100u8, 100u8, 114u8, 101u8, 115u8, 115u8]
}

/// The canonical spelling `address[]`.
pub open spec fn kw_address_array() -> Seq<u8> {
    kw_address() + seq![91u8, 93u8]
}

fn mk_kw_uint256() -> (v: Vec<u8>)
    ensures
        v@ == kw_uint256(),
{
    let mut v: Vec<u8> = Vec::new();
    v.push(117);
    v.push(105);
    v.push(110);
    v.push(116);
    v.push(50);
    v.push(53);
    v.push(54);
    proof {
        assert(v@ =~= kw_uint256());
    }
    v
}

fn mk_kw_address() -> (v: Vec<u8>)
    ensures
        v@ == kw_address(),
{
    let mut v: Vec<u8> = Vec::new();
    v.push(97);
    v.push(100);
    v.push(100);
    v.push(114);
    v.push(101);
    v.push(115);
    v.push(115);
    proof {
        assert(v@ =~= kw_address());
    }
    v
}

fn mk_kw_address_array() -> (v: Vec<u8>)
    ensures
        v@ == kw_address_array(),
{
    let mut v = mk_kw_address();
    v.push(91);
    v.push(93);
    proof {
        assert(v@ =~= kw_address_array());
    }
    v
}

/// The canonical text of one parameter type.
pub open spec fn spec_param_text(p: ParamType) -> Seq<u8> {
    match p {
        ParamType::Uint256 => kw_uint256(),
        ParamType::Address => kw_address(),
        ParamType::AddressArray => kw_address_array(),
    }
}

/// The canonical comma-separated text of a parameter list.
pub open spec fn spec_params_text(ps: Seq<ParamType>) -> Seq<u8>
    decreases ps.len(),
{
    if ps.len() == 0 {
        Seq::empty()
    } else if ps.len() == 1 {
        spec_param_text(ps[0])
    } else {
        spec_param_text(ps[0]) + seq![44u8] + spec_params_text(ps.drop_first())
    }
}

/// The canonical signature `name(type,...,type)`.
pub open spec fn spec_signature_text(name: Seq<u8>, ps: Seq<ParamType>) -> Seq<u8> {
    name + seq![40u8] + spec_params_text(ps) + seq![41u8]
}

fn append_param_text(out: &mut Vec<u8>, p: ParamType)
    ensures
        final(out)@ == old(out)@ + spec_param_text(p),
{
    let mut kw = match p {
        ParamType::Uint256 => mk_kw_uint256(),
        ParamType::Address => mk_kw_address(),
        ParamType::AddressArray => mk_kw_address_array(),
    };
    out.append(&mut kw);
}

fn append_params_text(out: &mut Vec<u8>, ps: &[ParamType], i: usize)
    requires
        i <= ps@.len(),
    ensures
        final(out)@ == old(out)@ + spec_params_text(ps@.skip(i as int)),
    decreases ps@.len() - i,
{
    if i < ps.len() {
        append_param_text(out, ps[i]);
        if i + 1 < ps.len() {
            out.push(44);
        }
        append_params_text(out, ps, i + 1);
        proof {
            let tail = ps@.skip(i as int);
            assert(tail[0] == ps@[i as int]);
            assert(tail.drop_first() =~= ps@.skip(i as int + 1));
            if i + 1 < ps@.len() {
                assert(out@ =~= old(out)@ + spec_params_text(ps@.skip(i as int)));
            } else {
                assert(tail.len() == 1);
                assert(out@ =~= old(out)@ + spec_params_text(ps@.skip(i as int)));
            }
        }
    } else {
        proof {
            assert(ps@.skip(i as int).len() == 0);
            assert(out@ =~= old(out)@ + spec_params_text(ps@.skip(i as int)));
        }
    }
}

/// Builds the canonical signature text of `name` over `params`.
pub fn signature_bytes(name: &[u8], params: &[ParamType]) -> (r: Vec<u8>)
    ensures
        r@ == spec_signature_text(name@, params@),
{
    let mut out = copy_range(name, 0, name.len());
    out.push(40);
    append_params_text(&mut out, params, 0);
    out.push(41);
    proof {
        assert(params@.skip(0) =~= params@);
        assert(out@ =~= spec_signature_text(name@, params@));
    }
    out
}

/// True when `b` may occur in an operation name.
pub open spec fn spec_is_name_byte(b: u8) -> bool {
    (65 <= b && b <= 90) || (97 <= b && b <= 122) || (48 <= b && b <= 57) || b == 95
}

/// True when `n` is a well-formed operation name.
pub open spec fn spec_name_ok(n: Seq<u8>) -> bool {
    n.len() > 0 && (forall|k: int| 0 <= k < n.len() ==> spec_is_name_byte(n[k]))
}

/// The abstract value of an operation.
#[verifier::ext_equal]
pub struct OpV {
    pub name: Seq<u8>,
    pub params: Seq<ParamType>,
    pub selector: Seq<u8>,
}

/// One callable operation: a name, its parameter schema, and the selector
/// derived from its canonical signature.
#[derive(Debug, PartialEq, Eq)]
pub struct Operation {
    pub name: Vec<u8>,
    pub params: Vec<ParamType>,
    pub selector: Vec<u8>,
}

impl View for Operation {
    type V = OpV;

    open spec fn view(&self) -> OpV {
        OpV { name: self.name@, params: self.params@, selector: self.selector@ }
    }
}

/// Well-formedness of an operation: a valid name and the selector derived
/// from the canonical signature.
pub open spec fn spec_op_wf(o: OpV) -> bool {
    &&& spec_name_ok(o.name)
    &&& o.selector == spec_selector_of(spec_signature_text(o.name, o.params))
    &&& o.selector.len() == 4
}

impl Operation {
    pub open spec fn wf(&self) -> bool {
        spec_op_wf(self@)
    }

    /// Builds an operation, deriving its selector from the canonical
    /// signature of the name and schema.
    pub fn new(name: Vec<u8>, params: Vec<ParamType>) -> (r: Operation)
        requires
            spec_name_ok(name@),
        ensures
            r@.name == name@,
            r@.params == params@,
            r.wf(),
    {
        let sig = signature_bytes(name.as_slice(), params.as_slice());
        let selector = selector_of_signature(sig.as_slice());
        Operation { name, params, selector }
    }
}

impl Operation {
    /// Copies the operation.
    pub fn dup(&self) -> (r: Operation)
        ensures
            r@ == self@,
    {
        let mut params: Vec<ParamType> = Vec::new();
        let mut i: usize = 0;
        while i < self.params.len()
            invariant
                i <= self.params@.len(),
                params@ == self.params@.take(i as int),
            decreases self.params@.len() - i,
        {
            params.push(self.params[i]);
            proof {
                assert(params@ =~= self.params@.take(i as int + 1));
            }
            i += 1;
        }
        proof {
            assert(self.params@.take(self.params@.len() as int) =~= self.params@);
        }
        let r = Operation {
            name: copy_range(self.name.as_slice(), 0, self.name.len()),
            params,
            selector: copy_range(self.selector.as_slice(), 0, self.selector.len()),
        };
        proof {
            assert(r@ =~= self@);
        }
        r
    }
}

/// The set of operations a contract exposes.
#[derive(Debug, PartialEq, Eq)]
pub struct ContractInterface {
    pub ops: Vec<Operation>,
}

impl View for ContractInterface {
    type V = Seq<OpV>;

    open spec fn view(&self) -> Seq<OpV> {
        self.ops@.map_values(|o: Operation| o@)
    }
}

/// Pairwise-distinct selectors.
pub open spec fn spec_distinct_selectors(ops: Seq<OpV>) -> bool {
    forall|i: int, j: int|
        0 <= i < j < ops.len() ==> (#[trigger] ops[i].selector) != (#[trigger] ops[j].selector)
}

/// Well-formedness of an interface: every operation well formed, selectors
/// pairwise distinct.
pub open spec fn spec_ifc_wf(ops: Seq<OpV>) -> bool {
    (forall|i: int| 0 <= i < ops.len() ==> spec_op_wf(#[trigger] ops[i])) && spec_distinct_selectors(
        ops,
    )
}

/// First operation with the given selector, as an index; `None` when no
/// operation carries it.
pub open spec fn spec_find_op_from(ops: Seq<OpV>, sel: Seq<u8>, i: int) -> Option<int>
    decreases ops.len() - i,
{
    if i < 0 || i >= ops.len() {
        None
    } else if ops[i].selector == sel {
        Some(i)
    } else {
        spec_find_op_from(ops, sel, i + 1)
    }
}

pub open spec fn spec_find_op(ops: Seq<OpV>, sel: Seq<u8>) -> Option<int> {
    spec_find_op_from(ops, sel, 0)
}

impl ContractInterface {
    pub open spec fn wf(&self) -> bool {
        spec_ifc_wf(self@)
    }

    /// Finds the operation carrying `sel`, as an index into `ops`.
    pub fn find_op_idx(&self, sel: &[u8]) -> (r: Option<usize>)
        ensures
            match r {
                Some(i) => i < self.ops@.len() && spec_find_op(self@, sel@) == Some(i as int),
                None => spec_find_op(self@, sel@) is None,
            },
    {
        let n = self.ops.len();
        let mut i: usize = 0;
        while i < n
            invariant
                n == self.ops@.len(),
                i <= n,
                spec_find_op(self@, sel@) == spec_find_op_from(self@, sel@, i as int),
            decreases n - i,
        {
            if bytes_eq(self.ops[i].selector.as_slice(), sel) {
                return Some(i);
            }
            i += 1;
        }
        None
    }
}

impl ContractInterface {
    /// Copies the interface.
    pub fn dup(&self) -> (r: ContractInterface)
        ensures
            r@ == self@,
    {
        let mut ops: Vec<Operation> = Vec::new();
        let mut i: usize = 0;
        while i < self.ops.len()
            invariant
                i <= self.ops@.len(),
                ops@.len() == i,
                forall|k: int| 0 <= k < i ==> (#[trigger] ops@[k])@ == self.ops@[k]@,
            decreases self.ops@.len() - i,
        {
            ops.push(self.ops[i].dup());
            i += 1;
        }
        let r = ContractInterface { ops };
        proof {
            let f = |o: Operation| o@;
            assert(r@.len() == self@.len());
            assert forall|k: int| 0 <= k < r@.len() implies r@[k] == self@[k] by {
                assert(r@[k] == f(r.ops@[k]));
                assert(self@[k] == f(self.ops@[k]));
            }
            assert(r@ =~= self@);
        }
        r
    }
}

/// A failure to read stored interface text back into an interface.
#[derive(Clone, Copy, Debug, PartialEq, Eq, Structural)]
pub enum FormatError {
    /// The text is not a newline-separated list of canonical signatures.
    Syntax,
    /// Two listed operations derive the same selector.
    DuplicateSelector,
}

/// End of the maximal run of name bytes starting at `i`.
pub open spec fn spec_scan_name(s: Seq<u8>, i: int) -> int
    decreases s.len() - i,
{
    if i < 0 || i >= s.len() {
        i
    } else if !spec_is_name_byte(s[i]) {
        i
    } else {
        spec_scan_name(s, i + 1)
    }
}

/// Position of the first newline at or after `i`, or the length of `s`.
pub open spec fn spec_scan_line(s: Seq<u8>, i: int) -> int
    decreases s.len() - i,
{
    if i < 0 || i >= s.len() {
        i
    } else if s[i] == 10 {
        i
    } else {
        spec_scan_line(s, i + 1)
    }
}

/// One parsed signature: a name and its schema.
pub type SigV = (Seq<u8>, Seq<ParamType>);

/// Parses the comma-separated type list occupying `s[i..end]`; the region is
/// nonempty here.
pub open spec fn spec_parse_params(s: Seq<u8>, i: int, end: int) -> Option<Seq<ParamType>>
    decreases end - i, 1int,
{
    if i < 0 || i > end || end > s.len() {
        None
    } else if spec_match_at(s, i, kw_address_array()) {
        if i + 9 <= end {
            spec_parse_params_tail(s, i + 9, end, ParamType::AddressArray)
        } else {
            None
        }
    } else if spec_match_at(s, i, kw_uint256()) {
        if i + 7 <= end {
            spec_parse_params_tail(s, i + 7, end, ParamType::Uint256)
        } else {
            None
        }
    } else if spec_match_at(s, i, kw_address()) {
        if i + 7 <= end {
            spec_parse_params_tail(s, i + 7, end, ParamType::Address)
        } else {
            None
        }
    } else {
        None
    }
}

/// After one parsed type `p` ending at `j`: either the list ends, or a comma
/// introduces the next type.
pub open spec fn spec_parse_params_tail(s: Seq<u8>, j: int, end: int, p: ParamType) -> Option<
    Seq<ParamType>,
>
    decreases end - j, 0int,
{
    if j < 0 || j > end || end > s.len() {
        None
    } else if j == end {
        Some(seq![p])
    } else if s[j] == 44 {
        match spec_parse_params(s, j + 1, end) {
            None => None,
            Some(r) => Some(seq![p] + r),
        }
    } else {
        None
    }
}

/// Parses one canonical signature occupying the whole of `line`.
pub open spec fn spec_parse_sig(line: Seq<u8>) -> Option<SigV> {
    let n = spec_scan_name(line, 0);
    if n == 0 || n >= line.len() {
        None
    } else if line[n] != 40 {
        None
    } else if line[line.len() - 1] != 41 {
        None
    } else {
        let end = line.len() - 1;
        if n + 1 == end {
            Some((line.take(n), Seq::empty()))
        } else {
            match spec_parse_params(line, n + 1, end) {
                None => None,
                Some(ps) => Some((line.take(n), ps)),
            }
        }
    }
}

/// Parses newline-separated signatures from `i` to the end of `s`; there is
/// at least one line here.
pub open spec fn spec_parse_lines(s: Seq<u8>, i: int) -> Option<Seq<SigV>>
    decreases s.len() - i,
{
    if i < 0 || i > s.len() {
        None
    } else {
        let j = spec_scan_line(s, i);
        if j < i || j > s.len() {
            None
        } else {
            match spec_parse_sig(s.subrange(i, j)) {
                None => None,
                Some(sig) => if j == s.len() {
                    Some(seq![sig])
                } else {
                    match spec_parse_lines(s, j + 1) {
                        None => None,
                        Some(r) => Some(seq![sig] + r),
                    }
                },
            }
        }
    }
}

/// Parses interface text: empty text is the empty interface, otherwise
/// newline-separated canonical signatures.
pub open spec fn spec_parse_interface_text(s: Seq<u8>) -> Option<Seq<SigV>> {
    if s.len() == 0 {
        Some(Seq::empty())
    } else {
        spec_parse_lines(s, 0)
    }
}

/// The operation a parsed signature denotes, its selector derived from the
/// canonical signature.
pub open spec fn spec_op_of_sig(sig: SigV) -> OpV {
    OpV {
        name: sig.0,
        params: sig.1,
        selector: spec_selector_of(spec_signature_text(sig.0, sig.1)),
    }
}

/// The interface that stored text denotes: parsed signatures with derived
/// selectors, provided the selectors are pairwise distinct.
pub open spec fn spec_interface_of(raw: Seq<u8>) -> Option<Seq<OpV>> {
    match spec_parse_interface_text(raw) {
        None => None,
        Some(sigs) => {
            let ops = sigs.map_values(|g: SigV| spec_op_of_sig(g));
            if spec_distinct_selectors(ops) {
                Some(ops)
            } else {
                None
            }
        },
    }
}

fn is_name_byte(b: u8) -> (r: bool)
    ensures
        r == spec_is_name_byte(b),
{
    (65 <= b && b <= 90) || (97 <= b && b <= 122) || (48 <= b && b <= 57) || b == 95
}

fn scan_name(s: &[u8], i: usize) -> (r: usize)
    requires
        i <= s@.len(),
    ensures
        r == spec_scan_name(s@, i as int),
        i <= r <= s@.len(),
        forall|k: int| i <= k < r ==> spec_is_name_byte(s@[k]),
        r < s@.len() ==> !spec_is_name_byte(s@[r as int]),
{
    let mut j = i;
    while j < s.len() && is_name_byte(s[j])
        invariant
            i <= j <= s@.len(),
            spec_scan_name(s@, i as int) == spec_scan_name(s@, j as int),
            forall|k: int| i <= k < j ==> spec_is_name_byte(s@[k]),
        decreases s@.len() - j,
    {
        j += 1;
    }
    j
}

fn scan_line(s: &[u8], i: usize) -> (r: usize)
    requires
        i <= s@.len(),
    ensures
        r == spec_scan_line(s@, i as int),
        i <= r <= s@.len(),
{
    let mut j = i;
    while j < s.len() && s[j] != 10
        invariant
            i <= j <= s@.len(),
            spec_scan_line(s@, i as int) == spec_scan_line(s@, j as int),
        decreases s@.len() - j,
    {
        j += 1;
    }
    j
}

fn parse_params(s: &[u8], i: usize, end: usize) -> (r: Option<Vec<ParamType>>)
    requires
        i <= end <= s@.len(),
    ensures
        r is Some <==> spec_parse_params(s@, i as int, end as int) is Some,
        r is Some ==> r->0@ == spec_parse_params(s@, i as int, end as int)->0,
    decreases end - i, 1int,
{
    let kw_aa = mk_kw_address_array();
    let kw_u = mk_kw_uint256();
    let kw_a = mk_kw_address();
    if match_at(s, i, kw_aa.as_slice()) {
        if end - i >= 9 {
            parse_params_tail(s, i + 9, end, ParamType::AddressArray)
        } else {
            None
        }
    } else if match_at(s, i, kw_u.as_slice()) {
        if end - i >= 7 {
            parse_params_tail(s, i + 7, end, ParamType::Uint256)
        } else {
            None
        }
    } else if match_at(s, i, kw_a.as_slice()) {
        if end - i >= 7 {
            parse_params_tail(s, i + 7, end, ParamType::Address)
        } else {
            None
        }
    } else {
        None
    }
}

fn parse_params_tail(s: &[u8], j: usize, end: usize, p: ParamType) -> (r: Option<Vec<ParamType>>)
    requires
        j <= end <= s@.len(),
    ensures
        r is Some <==> spec_parse_params_tail(s@, j as int, end as int, p) is Some,
        r is Some ==> r->0@ == spec_parse_params_tail(s@, j as int, end as int, p)->0,
    decreases end - j, 0int,
{
    if j == end {
        let mut v: Vec<ParamType> = Vec::new();
        v.push(p);
        proof {
            assert(v@ =~= seq![p]);
        }
        Some(v)
    } else if s[j] == 44 {
        match parse_params(s, j + 1, end) {
            None => None,
            Some(mut rest) => {
                let mut v: Vec<ParamType> = Vec::new();
                v.push(p);
                v.append(&mut rest);
                proof {
                    assert(v@ =~= seq![p] + spec_parse_params(s@, j as int + 1, end as int)->0);
                }
                Some(v)
            },
        }
    } else {
        None
    }
}

fn parse_sig_line(line: &[u8]) -> (r: Option<(Vec<u8>, Vec<ParamType>)>)
    ensures
        r is Some <==> spec_parse_sig(line@) is Some,
        r is Some ==> ({
            let sp = spec_parse_sig(line@)->0;
            (r->0).0@ == sp.0 && (r->0).1@ == sp.1 && spec_name_ok(sp.0)
        }),
{
    let n = scan_name(line, 0);
    if n == 0 || n >= line.len() {
        return None;
    }
    if line[n] != 40 {
        return None;
    }
    if line[line.len() - 1] != 41 {
        return None;
    }
    let end = line.len() - 1;
    let name = copy_range(line, 0, n);
    proof {
        assert(name@ =~= line@.take(n as int));
    }
    if n + 1 == end {
        let ps: Vec<ParamType> = Vec::new();
        proof {
            assert(ps@ =~= Seq::<ParamType>::empty());
        }
        Some((name, ps))
    } else {
        match parse_params(line, n + 1, end) {
            None => None,
            Some(ps) => Some((name, ps)),
        }
    }
}

fn parse_lines_ops(s: &[u8], i: usize) -> (r: Option<Vec<Operation>>)
    requires
        i <= s@.len(),
    ensures
        r is Some <==> spec_parse_lines(s@, i as int) is Some,
        r is Some ==> r->0@.map_values(|o: Operation| o@) == spec_parse_lines(
            s@,
            i as int,
        )->0.map_values(|g: SigV| spec_op_of_sig(g)),
        r is Some ==> forall|k: int| 0 <= k < r->0@.len() ==> (#[trigger] r->0@[k]).wf(),
    decreases s@.len() - i,
{
    let j = scan_line(s, i);
    let line = slice_subrange(s, i, j);
    match parse_sig_line(line) {
        None => None,
        Some((name, params)) => {
            let op = Operation::new(name, params);
            let ghost spsig = spec_parse_sig(s@.subrange(i as int, j as int))->0;
            proof {
                assert(op@ =~= spec_op_of_sig(spsig));
            }
            if j == s.len() {
                let mut v: Vec<Operation> = Vec::new();
                v.push(op);
                proof {
                    assert(spec_parse_lines(s@, i as int)->0 =~= seq![spsig]);
                    assert(v@.map_values(|o: Operation| o@) =~= seq![spsig].map_values(
                        |g: SigV| spec_op_of_sig(g),
                    ));
                }
                Some(v)
            } else {
                match parse_lines_ops(s, j + 1) {
                    None => None,
                    Some(mut rest) => {
                        let ghost sprest = spec_parse_lines(s@, j as int + 1)->0;
                        let ghost restv = rest@;
                        let mut v: Vec<Operation> = Vec::new();
                        v.push(op);
                        v.append(&mut rest);
                        proof {
                            let f = |o: Operation| o@;
                            let g = |q: SigV| spec_op_of_sig(q);
                            let lhs = v@.map_values(f);
                            let rhs = (seq![spsig] + sprest).map_values(g);
                            assert(spec_parse_lines(s@, i as int)->0 =~= seq![spsig] + sprest);
                            assert(v@ =~= seq![op] + restv);
                            assert(restv.map_values(f).len() == sprest.map_values(g).len());
                            assert(lhs.len() == rhs.len());
                            assert forall|k: int| 0 <= k < lhs.len() implies lhs[k] == rhs[k] by {
                                if k == 0 {
                                    assert(lhs[0] == op@);
                                    assert(rhs[0] == g(spsig));
                                } else {
                                    assert(restv.map_values(f).len() == sprest.map_values(
                                        g,
                                    ).len());
                                    assert(lhs[k] == restv[k - 1]@);
                                    assert(restv.map_values(f)[k - 1] == sprest.map_values(g)[k
                                        - 1]);
                                    assert((seq![spsig] + sprest)[k] == sprest[k - 1]);
                                    assert(rhs[k] == g(sprest[k - 1]));
                                }
                            }
                            assert(lhs =~= rhs);
                            assert forall|k: int| 0 <= k < v@.len() implies (#[trigger] v@[k]).wf()
                                by {
                                if k > 0 {
                                    assert(restv[k - 1].wf());
                                }
                            }
                        }
                        Some(v)
                    },
                }
            }
        },
    }
}

fn has_duplicate_selector(ops: &Vec<Operation>) -> (r: bool)
    ensures
        r <==> !spec_distinct_selectors(ops@.map_values(|o: Operation| o@)),
{
    let ghost m = ops@.map_values(|o: Operation| o@);
    let n = ops.len();
    let mut a: usize = 0;
    while a < n
        invariant
            n == ops@.len(),
            m == ops@.map_values(|o: Operation| o@),
            a <= n,
            forall|i: int, j: int| 0 <= i < j < n && i < a ==> m[i].selector != m[j].selector,
        decreases n - a,
    {
        let mut b = a + 1;
        while b < n
            invariant
                n == ops@.len(),
                m == ops@.map_values(|o: Operation| o@),
                a < b <= n,
                a < n,
                forall|j: int| a < j < b ==> m[a as int].selector != m[j].selector,
            decreases n - b,
        {
            if bytes_eq(ops[a].selector.as_slice(), ops[b].selector.as_slice()) {
                proof {
                    assert(m[a as int] == (|o: Operation| o@)(ops@[a as int]));
                    assert(m[b as int] == (|o: Operation| o@)(ops@[b as int]));
                    assert(m[a as int].selector == m[b as int].selector);
                    assert(!spec_distinct_selectors(m));
                }
                return true;
            }
            b += 1;
        }
        a += 1;
    }
    false
}

impl ContractInterface {
    /// Reads stored interface text back into an interface, deriving each
    /// operation's selector; fails with `Syntax` exactly when the text is
    /// not a newline-separated list of canonical signatures, and with
    /// `DuplicateSelector` exactly when two listed operations collide.
    pub fn parse(raw: &[u8]) -> (r: Result<ContractInterface, FormatError>)
        ensures
            r is Ok <==> spec_interface_of(raw@) is Some,
            r is Ok ==> r->Ok_0@ == spec_interface_of(raw@)->0 && r->Ok_0.wf(),
            r == Err::<ContractInterface, FormatError>(FormatError::Syntax) <==> spec_parse_interface_text(raw@) is None,
            (r is Err && spec_parse_interface_text(raw@) is Some) ==> r == Err::<
                ContractInterface,
                FormatError,
            >(FormatError::DuplicateSelector),
    {
        if raw.len() == 0 {
            let ifc = ContractInterface { ops: Vec::new() };
            proof {
                assert(ifc@ =~= Seq::<OpV>::empty());
                assert(spec_parse_interface_text(raw@)->0.map_values(|g: SigV| spec_op_of_sig(g))
                    =~= Seq::<OpV>::empty());
            }
            return Ok(ifc);
        }
        match parse_lines_ops(raw, 0) {
            None => Err(FormatError::Syntax),
            Some(ops) => {
                if has_duplicate_selector(&ops) {
                    Err(FormatError::DuplicateSelector)
                } else {
                    let ifc = ContractInterface { ops };
                    Ok(ifc)
                }
            },
        }
    }
}

/// The stored text of an interface: its canonical signatures, one per line.
pub open spec fn spec_interface_text(ops: Seq<OpV>) -> Seq<u8>
    decreases ops.len(),
{
    if ops.len() == 0 {
        Seq::empty()
    } else if ops.len() == 1 {
        spec_signature_text(ops[0].name, ops[0].params)
    } else {
        spec_signature_text(ops[0].name, ops[0].params) + seq![10u8] + spec_interface_text(
            ops.drop_first(),
        )
    }
}

fn append_interface_text(out: &mut Vec<u8>, ops: &Vec<Operation>, i: usize)
    requires
        i <= ops@.len(),
    ensures
        final(out)@ == old(out)@ + spec_interface_text(
            ops@.map_values(|o: Operation| o@).skip(i as int),
        ),
    decreases ops@.len() - i,
{
    let ghost m = ops@.map_values(|o: Operation| o@);
    if i < ops.len() {
        let mut sig = signature_bytes(ops[i].name.as_slice(), ops[i].params.as_slice());
        out.append(&mut sig);
        if i + 1 < ops.len() {
            out.push(10);
        }
        append_interface_text(out, ops, i + 1);
        proof {
            let tail = m.skip(i as int);
            assert(m[i as int] == (|o: Operation| o@)(ops@[i as int]));
            assert(tail[0] == m[i as int]);
            assert(tail.drop_first() =~= m.skip(i as int + 1));
            if i + 1 < ops@.len() {
                assert(out@ =~= old(out)@ + spec_interface_text(tail));
            } else {
                assert(tail.len() == 1);
                assert(out@ =~= old(out)@ + spec_interface_text(tail));
            }
        }
    } else {
        proof {
            assert(m.skip(i as int).len() == 0);
            assert(out@ =~= old(out)@ + spec_interface_text(m.skip(i as int)));
        }
    }
}

impl ContractInterface {
    /// Serializes the interface as the cache stores it: one canonical
    /// signature per line.
    pub fn interface_text(&self) -> (r: Vec<u8>)
        ensures
            r@ == spec_interface_text(self@),
    {
        let mut out: Vec<u8> = Vec::new();
        append_interface_text(&mut out, &self.ops, 0);
        proof {
            assert(self@.skip(0) =~= self@);
        }
        out
    }
}

} // verus!
