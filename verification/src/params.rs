use vstd::prelude::*;
use crate::bytes::{Parsed, ParseError, error_of, le_u32_of, read_le_u32};
use crate::varint::{spec_varint, variable_width_value_parser, lemma_varint_bounds};

verus! {

/// A value of the parameter tree of a watchface: a number, a float (held
/// as the bits of its IEEE 754 single-precision encoding) or a list of child
/// parameters. Two parameters are equal as the values they hold: floats as
/// numbers (the two zeros are equal, a NaN equals nothing), child lists as
/// maps from keys to values; see `pvalue_eq`.
#[derive(Debug)]
pub enum Param {
    Number(i64),
    Float(u32),
    Child(Params),
}

/// The values read under one key, in the order in which they came.
#[derive(Debug, PartialEq)]
pub struct ParamEntry {
    pub key: u8,
    pub values: Vec<Param>,
}

/// Parameters grouped by key, keys in the order of their first occurrence.
/// They are kept as a list rather than a hash map: filling a watchface walks
/// the entries, and a list gives that walk an order that the contracts state
/// exactly, where a hash map's order is unspecified. Two lists are equal as
/// maps from keys to values, whatever the order of their keys; see
/// `entries_match`.
#[derive(Debug)]
pub struct Params {
    pub entries: Vec<ParamEntry>,
}

/// The mathematical value of a `Param`.
pub enum PValue {
    Number(i64),
    Float(u32),
    Child(Seq<(u8, Seq<PValue>)>),
}

impl Param {
    /// The mathematical value of the parameter.
    pub open spec fn model(&self) -> PValue
        decreases self,
    {
        match self {
            Param::Number(n) => PValue::Number(*n),
            Param::Float(b) => PValue::Float(*b),
            Param::Child(ps) => PValue::Child(ps.model()),
        }
    }
}

impl Params {
    /// The entries as pairs of a key and the values under it.
    pub open spec fn model(&self) -> Seq<(u8, Seq<PValue>)>
        decreases self,
    {
        Seq::new(
            self.entries@.len(),
            |i: int|
                if 0 <= i < self.entries@.len() {
                    (
                        self.entries@[i].key,
                        Seq::new(
                            self.entries@[i].values@.len(),
                            |j: int|
                                if 0 <= j < self.entries@[i].values@.len() {
                                    self.entries@[i].values@[j].model()
                                } else {
                                    PValue::Number(0)
                                },
                        ),
                    )
                } else {
                    (0u8, Seq::empty())
                },
        )
    }
}

/// The mathematical value of the values of one entry.
pub open spec fn values_model(vs: Seq<Param>) -> Seq<PValue> {
    Seq::new(vs.len(), |j: int| vs[j].model())
}

/// The `i`-th entry of the model is the key and the values of the `i`-th
/// entry.
pub proof fn lemma_params_model_index(ps: &Params, i: int)
    requires
        0 <= i < ps.entries@.len(),
    ensures
        ps.model().len() == ps.entries@.len(),
        ps.model()[i] == (ps.entries@[i].key, values_model(ps.entries@[i].values@)),
{
    assert(ps.model()[i].1 =~= values_model(ps.entries@[i].values@));
}

/// The index of the entry of `acc` under `k`, or -1 where there is none.
pub open spec fn key_index(acc: Seq<(u8, Seq<PValue>)>, k: u8) -> int
    decreases acc.len(),
{
    if acc.len() == 0 {
        -1
    } else if acc.last().0 == k {
        acc.len() - 1
    } else {
        key_index(acc.drop_last(), k)
    }
}

/// `acc` with `v` added under `k`: at the end of the entry of `k` where
/// there is one, else in a new entry at the end.
pub open spec fn add_param(acc: Seq<(u8, Seq<PValue>)>, k: u8, v: PValue) -> Seq<(u8, Seq<PValue>)> {
    let j = key_index(acc, k);
    if j >= 0 {
        acc.update(j, (k, acc[j].1.push(v)))
    } else {
        acc.push((k, seq![v]))
    }
}

/// One parameter at the start of `s`: its key and its value.
pub open spec fn spec_param(s: Seq<u8>) -> Parsed<(u8, PValue)>
    decreases s.len(), 0nat,
{
    match spec_varint(s) {
        None => Parsed::Fail,
        Some((fd, n1)) => {
            proof {
                lemma_varint_bounds(s);
            }
            let key = (fd >> 3u64) as u8;
            let rest = s.skip(n1 as int);
            if fd & 0x05 == 0x05 {
                if rest.len() >= 4 {
                    Parsed::Done((key, PValue::Float(le_u32_of(rest))), n1 + 4)
                } else {
                    Parsed::Fail
                }
            } else {
                match spec_varint(rest) {
                    None => Parsed::Fail,
                    Some((fv, n2)) => {
                        proof {
                            lemma_varint_bounds(rest);
                        }
                        if fd & 0x02 == 0x02 {
                            match spec_params(rest.skip(n2 as int), (fv as usize) as nat, Seq::empty()) {
                                Parsed::Done(es, n3) => Parsed::Done((key, PValue::Child(es)), n1 + n2 + n3),
                                Parsed::Fail => Parsed::Fail,
                                Parsed::Malformed => Parsed::Malformed,
                            }
                        } else {
                            Parsed::Done((key, PValue::Number(fv)), n1 + n2)
                        }
                    },
                }
            }
        },
    }
}

/// Parameters read from the start of `s` until `budget` bytes have been
/// read, added to `acc`. Reading past the budget is malformed.
pub open spec fn spec_params(s: Seq<u8>, budget: nat, acc: Seq<(u8, Seq<PValue>)>) -> Parsed<Seq<(u8, Seq<PValue>)>>
    decreases s.len(), 1nat,
{
    if budget == 0 {
        Parsed::Done(acc, 0)
    } else {
        match spec_param(s) {
            Parsed::Fail => Parsed::Fail,
            Parsed::Malformed => Parsed::Malformed,
            Parsed::Done((k, v), n) => {
                if n == 0 || n > s.len() || n > budget {
                    Parsed::Malformed
                } else {
                    match spec_params(s.skip(n as int), (budget - n) as nat, add_param(acc, k, v)) {
                        Parsed::Done(r, m) => Parsed::Done(r, n + m),
                        Parsed::Fail => Parsed::Fail,
                        Parsed::Malformed => Parsed::Malformed,
                    }
                }
            },
        }
    }
}


/// `o` with `d` more bytes consumed.
pub open spec fn shift<T>(o: Parsed<T>, d: nat) -> Parsed<T> {
    match o {
        Parsed::Done(r, m) => Parsed::Done(r, m + d),
        Parsed::Fail => Parsed::Fail,
        Parsed::Malformed => Parsed::Malformed,
    }
}

/// A parameter takes at least one byte and no more than the input holds;
/// a list of parameters takes exactly its budget.
pub proof fn lemma_param_bounds(s: Seq<u8>)
    ensures
        spec_param(s) matches Parsed::Done(_, n) ==> 1 <= n <= s.len(),
    decreases s.len(), 0nat,
{
    lemma_varint_bounds(s);
    if let Some((fd, n1)) = spec_varint(s) {
        let rest = s.skip(n1 as int);
        if fd & 0x05 != 0x05 {
            lemma_varint_bounds(rest);
            if let Some((fv, n2)) = spec_varint(rest) {
                if fd & 0x02 == 0x02 {
                    lemma_params_bounds(rest.skip(n2 as int), (fv as usize) as nat, Seq::empty());
                }
            }
        }
    }
}

/// See `lemma_param_bounds`.
pub proof fn lemma_params_bounds(s: Seq<u8>, budget: nat, acc: Seq<(u8, Seq<PValue>)>)
    ensures
        spec_params(s, budget, acc) matches Parsed::Done(_, m) ==> m == budget && m <= s.len(),
    decreases s.len(), 1nat,
{
    if budget > 0 {
        lemma_param_bounds(s);
        if let Parsed::Done((k, v), n) = spec_param(s) {
            if !(n == 0 || n > s.len() || n > budget) {
                lemma_params_bounds(s.skip(n as int), (budget - n) as nat, add_param(acc, k, v));
            }
        }
    }
}

proof fn lemma_key_index_take(acc: Seq<(u8, Seq<PValue>)>, k: u8, j: int)
    requires
        0 < j <= acc.len(),
        acc[j - 1].0 != k,
    ensures
        key_index(acc.take(j), k) == key_index(acc.take(j - 1), k),
{
    assert(acc.take(j).drop_last() =~= acc.take(j - 1));
}

/// The index of the entry under `k` is -1 or that of an entry under `k`.
pub proof fn lemma_key_index_range(acc: Seq<(u8, Seq<PValue>)>, k: u8)
    ensures
        -1 <= key_index(acc, k) < acc.len(),
        key_index(acc, k) >= 0 ==> acc[key_index(acc, k)].0 == k,
    decreases acc.len(),
{
    if acc.len() > 0 && acc.last().0 != k {
        lemma_key_index_range(acc.drop_last(), k);
    }
}

/// Reads one parameter at `pos`, where the input is known to be well
/// formed; see `parse_param`.
pub fn param_parser(input: &[u8], pos: usize) -> (r: Result<((u8, Param), usize), ParseError>)
    requires
        pos <= input@.len(),
        !spec_param(input@.skip(pos as int)).is_malformed(),
    ensures
        match spec_param(input@.skip(pos as int)) {
            Parsed::Done((k, v), n) => r matches Ok(((rk, rv), rp)) && rk == k && rv.model() == v
                && rp == pos + n,
            _ => r == Err::<((u8, Param), usize), ParseError>(ParseError::Incomplete),
        },
{
    parse_param(input, pos)
}

/// Reads parameters at `pos` until `max_size` bytes have been read, where
/// the input is known to be well formed; see `parse_params`.
pub fn params_parser(input: &[u8], pos: usize, max_size: usize) -> (r: Result<(Params, usize), ParseError>)
    requires
        pos <= input@.len(),
        !spec_params(input@.skip(pos as int), max_size as nat, Seq::empty()).is_malformed(),
    ensures
        match spec_params(input@.skip(pos as int), max_size as nat, Seq::empty()) {
            Parsed::Done(es, n) => r matches Ok((ps, rp)) && ps.model() == es && rp == pos + n,
            _ => r == Err::<(Params, usize), ParseError>(ParseError::Incomplete),
        },
{
    parse_params(input, pos, max_size)
}

impl Params {
    /// The values under `key`, where there are any.
    pub fn get(&self, key: u8) -> (r: Option<&Vec<Param>>)
        ensures
            key_index(self.model(), key) < 0 ==> r is None,
            key_index(self.model(), key) >= 0 ==> (r matches Some(vs)
                && *vs == self.entries@[key_index(self.model(), key)].values),
    {
        let ghost m = self.model();
        let len = self.entries.len();
        let mut j: usize = len;
        assert(m.take(len as int) =~= m);
        while j > 0
            invariant
                j <= len,
                len == self.entries@.len(),
                m == self.model(),
                m.len() == len,
                key_index(m, key) == key_index(m.take(j as int), key),
            decreases j,
        {
            proof {
                lemma_params_model_index(self, j - 1);
                assert(m.take(j as int).last() == m[j - 1]);
            }
            if self.entries[j - 1].key == key {
                return Some(&self.entries[j - 1].values);
            }
            proof {
                lemma_key_index_take(m, key, j as int);
            }
            j = j - 1;
        }
        assert(m.take(0) =~= Seq::<(u8, Seq<PValue>)>::empty());
        None
    }
}

/// No key occurs twice in `es`.
pub open spec fn distinct_keys(es: Seq<(u8, Seq<PValue>)>) -> bool {
    forall|i: int, j: int| 0 <= i < j < es.len() ==> es[i].0 != es[j].0
}

proof fn lemma_add_param_distinct(acc: Seq<(u8, Seq<PValue>)>, k: u8, v: PValue)
    requires
        distinct_keys(acc),
    ensures
        distinct_keys(add_param(acc, k, v)),
        add_param(acc, k, v).len() >= acc.len(),
        forall|i: int| 0 <= i < acc.len() ==> (#[trigger] add_param(acc, k, v)[i]).0 == acc[i].0,
        exists|i: int| 0 <= i < add_param(acc, k, v).len() && (#[trigger] add_param(acc, k, v)[i]).0 == k,
    decreases acc.len(),
{
    lemma_key_index_range(acc, k);
    lemma_key_index_absent(acc, k);
    let r = add_param(acc, k, v);
    if key_index(acc, k) >= 0 {
        assert(r[key_index(acc, k)].0 == k);
    } else {
        assert(r[acc.len() as int].0 == k);
    }
}

proof fn lemma_key_index_absent(acc: Seq<(u8, Seq<PValue>)>, k: u8)
    ensures
        key_index(acc, k) < 0 ==> forall|i: int| 0 <= i < acc.len() ==> #[trigger] acc[i].0 != k,
    decreases acc.len(),
{
    if acc.len() > 0 && acc.last().0 != k {
        lemma_key_index_absent(acc.drop_last(), k);
        if key_index(acc, k) < 0 {
            assert forall|i: int| 0 <= i < acc.len() implies #[trigger] acc[i].0 != k by {
                if i < acc.len() - 1 {
                    assert(acc.drop_last()[i] == acc[i]);
                }
            }
        }
    }
}

proof fn lemma_params_distinct(s: Seq<u8>, budget: nat, acc: Seq<(u8, Seq<PValue>)>)
    requires
        distinct_keys(acc),
    ensures
        spec_params(s, budget, acc) matches Parsed::Done(es, _) ==> distinct_keys(es),
    decreases s.len(),
{
    if budget > 0 {
        if let Parsed::Done((k, v), n) = spec_param(s) {
            if !(n == 0 || n > s.len() || n > budget) {
                lemma_add_param_distinct(acc, k, v);
                lemma_params_distinct(s.skip(n as int), (budget - n) as nat, add_param(acc, k, v));
            }
        }
    }
}

/// A list of parameters read from the input has one entry per key: no key
/// occurs twice.
pub proof fn law_params_keys_distinct(s: Seq<u8>, budget: nat)
    ensures
        spec_params(s, budget, Seq::empty()) matches Parsed::Done(es, _) ==> distinct_keys(es),
{
    lemma_params_distinct(s, budget, Seq::empty());
}

/// The parameters at the start of `s`, one after another in the order of the
/// input, until `budget` bytes have been read; reading past the budget is
/// malformed.
pub open spec fn param_stream(s: Seq<u8>, budget: nat) -> Parsed<Seq<(u8, PValue)>>
    decreases s.len(),
{
    if budget == 0 {
        Parsed::Done(Seq::empty(), 0)
    } else {
        match spec_param(s) {
            Parsed::Fail => Parsed::Fail,
            Parsed::Malformed => Parsed::Malformed,
            Parsed::Done((k, v), n) => {
                if n == 0 || n > s.len() || n > budget {
                    Parsed::Malformed
                } else {
                    match param_stream(s.skip(n as int), (budget - n) as nat) {
                        Parsed::Done(items, m) => Parsed::Done(seq![(k, v)] + items, n + m),
                        Parsed::Fail => Parsed::Fail,
                        Parsed::Malformed => Parsed::Malformed,
                    }
                }
            },
        }
    }
}

/// `acc` with the parameters `items` added in order.
pub open spec fn gather(acc: Seq<(u8, Seq<PValue>)>, items: Seq<(u8, PValue)>) -> Seq<(u8, Seq<PValue>)>
    decreases items.len(),
{
    if items.len() == 0 {
        acc
    } else {
        gather(add_param(acc, items[0].0, items[0].1), items.drop_first())
    }
}

/// The values of the parameters `items` under the key `k`, in order.
pub open spec fn values_in(items: Seq<(u8, PValue)>, k: u8) -> Seq<PValue>
    decreases items.len(),
{
    if items.len() == 0 {
        Seq::empty()
    } else {
        (if items[0].0 == k {
            seq![items[0].1]
        } else {
            Seq::empty()
        }) + values_in(items.drop_first(), k)
    }
}

/// The values under `k` in the entries `es`; none where there is no entry.
pub open spec fn entry_values(es: Seq<(u8, Seq<PValue>)>, k: u8) -> Seq<PValue> {
    if key_index(es, k) >= 0 {
        es[key_index(es, k)].1
    } else {
        Seq::empty()
    }
}

proof fn lemma_params_stream(s: Seq<u8>, budget: nat, acc: Seq<(u8, Seq<PValue>)>)
    ensures
        spec_params(s, budget, acc) == match param_stream(s, budget) {
            Parsed::Done(items, m) => Parsed::Done(gather(acc, items), m),
            Parsed::Fail => Parsed::Fail,
            Parsed::Malformed => Parsed::Malformed,
        },
    decreases s.len(),
{
    if budget > 0 {
        if let Parsed::Done((k, v), n) = spec_param(s) {
            if !(n == 0 || n > s.len() || n > budget) {
                lemma_params_stream(s.skip(n as int), (budget - n) as nat, add_param(acc, k, v));
                if let Parsed::Done(items, m) = param_stream(s.skip(n as int), (budget - n) as nat) {
                    let all = seq![(k, v)] + items;
                    assert(all.drop_first() =~= items);
                }
            }
        }
    }
}

proof fn lemma_key_index_keys(a: Seq<(u8, Seq<PValue>)>, b: Seq<(u8, Seq<PValue>)>, k: u8)
    requires
        a.len() == b.len(),
        forall|i: int| 0 <= i < a.len() ==> #[trigger] a[i].0 == b[i].0,
    ensures
        key_index(a, k) == key_index(b, k),
    decreases a.len(),
{
    if a.len() > 0 {
        lemma_key_index_keys(a.drop_last(), b.drop_last(), k);
    }
}

proof fn lemma_add_param_values(acc: Seq<(u8, Seq<PValue>)>, k2: u8, v: PValue, k: u8)
    ensures
        entry_values(add_param(acc, k2, v), k) == entry_values(acc, k) + if k2 == k {
            seq![v]
        } else {
            Seq::empty()
        },
        (key_index(add_param(acc, k2, v), k) >= 0) == (key_index(acc, k) >= 0 || k2 == k),
{
    lemma_key_index_range(acc, k);
    lemma_key_index_range(acc, k2);
    let j = key_index(acc, k2);
    let r = add_param(acc, k2, v);
    if j >= 0 {
        lemma_key_index_keys(r, acc, k);
        if k2 == k {
            assert(entry_values(r, k) =~= entry_values(acc, k) + seq![v]);
        } else {
            assert(entry_values(r, k) =~= entry_values(acc, k) + Seq::<PValue>::empty());
        }
    } else {
        assert(r.drop_last() =~= acc);
        if k2 == k {
            assert(key_index(r, k) == acc.len());
            assert(key_index(acc, k) < 0);
            assert(entry_values(r, k) =~= entry_values(acc, k) + seq![v]);
        } else {
            assert(key_index(r, k) == key_index(acc, k));
            assert(entry_values(r, k) =~= entry_values(acc, k) + Seq::<PValue>::empty());
        }
    }
}

proof fn lemma_gather_values(acc: Seq<(u8, Seq<PValue>)>, items: Seq<(u8, PValue)>, k: u8)
    ensures
        entry_values(gather(acc, items), k) == entry_values(acc, k) + values_in(items, k),
        (key_index(gather(acc, items), k) >= 0) == (key_index(acc, k) >= 0 || values_in(items, k).len() > 0),
    decreases items.len(),
{
    if items.len() == 0 {
        assert(entry_values(acc, k) + values_in(items, k) =~= entry_values(acc, k));
    } else {
        let a2 = add_param(acc, items[0].0, items[0].1);
        lemma_add_param_values(acc, items[0].0, items[0].1, k);
        lemma_gather_values(a2, items.drop_first(), k);
        assert(entry_values(acc, k) + values_in(items, k) =~= entry_values(a2, k) + values_in(
            items.drop_first(),
            k,
        ));
    }
}

/// A list of parameters read from the input holds, under each key, the
/// values of the parameters with that key in the order of the input, and an
/// entry for a key exactly where a parameter has it; the list takes exactly
/// its budget of bytes.
pub proof fn law_params_stream(s: Seq<u8>, budget: nat, k: u8)
    ensures
        spec_params(s, budget, Seq::empty()) == match param_stream(s, budget) {
            Parsed::Done(items, m) => Parsed::Done(gather(Seq::empty(), items), m),
            Parsed::Fail => Parsed::Fail,
            Parsed::Malformed => Parsed::Malformed,
        },
        param_stream(s, budget) matches Parsed::Done(items, m) ==> {
            &&& m == budget
            &&& entry_values(gather(Seq::empty(), items), k) == values_in(items, k)
            &&& (key_index(gather(Seq::empty(), items), k) >= 0) == (values_in(items, k).len() > 0)
        },
{
    lemma_params_stream(s, budget, Seq::empty());
    lemma_params_bounds(s, budget, Seq::empty());
    if let Parsed::Done(items, m) = param_stream(s, budget) {
        lemma_gather_values(Seq::empty(), items, k);
        assert(key_index(Seq::<(u8, Seq<PValue>)>::empty(), k) == -1);
        assert(entry_values(Seq::<(u8, Seq<PValue>)>::empty(), k) + values_in(items, k) =~= values_in(items, k));
    }
}

/// One parameter: its descriptor, a variable-width value whose bits from the
/// fourth on are the key; then, where the descriptor has bits 0x05, four
/// bytes of a float; else a variable-width value, which is the length of
/// the child parameters that follow where the descriptor has bit 0x02, and
/// the number itself where it has not.
pub proof fn law_param_layout(s: Seq<u8>)
    ensures
        match spec_param(s) {
            Parsed::Done((k, p), n) => match spec_varint(s) {
                Some((d, n1)) => {
                    let rest = s.skip(n1 as int);
                    &&& k == (d >> 3u64) as u8
                    &&& if d & 0x05 == 0x05 {
                        p == PValue::Float(le_u32_of(rest)) && n == n1 + 4
                    } else {
                        match spec_varint(rest) {
                            Some((v, n2)) => if d & 0x02 == 0x02 {
                                match spec_params(rest.skip(n2 as int), (v as usize) as nat, Seq::empty()) {
                                    Parsed::Done(es, n3) => p == PValue::Child(es) && n == n1 + n2 + n3,
                                    _ => false,
                                }
                            } else {
                                p == PValue::Number(v) && n == n1 + n2
                            },
                            None => false,
                        }
                    }
                },
                None => false,
            },
            _ => true,
        },
{
}

/// Adds a new entry under `k` holding `v` alone at the end of `params`.
pub fn push_entry(params: &mut Params, k: u8, v: Param)
    ensures
        final(params).model() == old(params).model().push((k, seq![v.model()])),
{
    let ghost m0 = params.model();
    let len = params.entries.len();
    let mut vs: Vec<Param> = Vec::new();
    vs.push(v);
    params.entries.push(ParamEntry { key: k, values: vs });
    proof {
        let m1 = params.model();
        let target = m0.push((k, seq![v.model()]));
        assert forall|i: int| 0 <= i <= len implies m1[i] == target[i] by {
            lemma_params_model_index(&*params, i);
            if i < len {
                lemma_params_model_index(old(params), i);
            } else {
                assert(values_model(params.entries@[i].values@) =~= seq![v.model()]);
            }
        }
        assert(m1 =~= target);
    }
}

/// Adds `v` under `k` to `params`.
fn add_value(params: &mut Params, k: u8, v: Param)
    ensures
        final(params).model() == add_param(old(params).model(), k, v.model()),
{
    let ghost m0 = params.model();
    let len = params.entries.len();
    let mut j: usize = len;
    proof {
        assert(m0.take(len as int) =~= m0);
    }
    while j > 0
        invariant
            j <= len,
            len == params.entries@.len(),
            m0 == params.model(),
            m0.len() == len,
            key_index(m0, k) == key_index(m0.take(j as int), k),
        ensures
            j == 0 || params.entries@[j - 1].key == k,
        decreases j,
    {
        if params.entries[j - 1].key == k {
            break;
        }
        proof {
            lemma_params_model_index(&*params, j - 1);
            lemma_key_index_take(m0, k, j as int);
        }
        j = j - 1;
    }
    if j > 0 && params.entries[j - 1].key == k {
        proof {
            lemma_params_model_index(&*params, j - 1);
            assert(m0.take(j as int).last() == m0[j - 1]);
        }
        let mut e = params.entries.remove(j - 1);
        e.values.push(v);
        params.entries.insert(j - 1, e);
        proof {
            let m1 = params.model();
            let target = add_param(m0, k, v.model());
            assert forall|i: int| 0 <= i < len implies m1[i] == target[i] by {
                lemma_params_model_index(&*params, i);
                lemma_params_model_index(old(params), i);
                if i == j - 1 {
                    assert(values_model(params.entries@[i].values@) =~= m0[i].1.push(v.model()));
                }
            }
            assert(m1 =~= target);
        }
    } else {
        proof {
            assert(m0.take(0) =~= Seq::<(u8, Seq<PValue>)>::empty());
        }
        let mut vs: Vec<Param> = Vec::new();
        vs.push(v);
        params.entries.push(ParamEntry { key: k, values: vs });
        proof {
            let m1 = params.model();
            let target = add_param(m0, k, v.model());
            assert forall|i: int| 0 <= i <= len implies m1[i] == target[i] by {
                lemma_params_model_index(&*params, i);
                if i < len {
                    lemma_params_model_index(old(params), i);
                } else {
                    assert(values_model(params.entries@[i].values@) =~= seq![v.model()]);
                }
            }
            assert(m1 =~= target);
        }
    }
}

/// Reads one parameter at `pos`: its key, its value and the position after it.
/// Where the parameter has children, they are read too.
pub fn parse_param(input: &[u8], pos: usize) -> (r: Result<((u8, Param), usize), ParseError>)
    requires
        pos <= input@.len(),
    ensures
        match spec_param(input@.skip(pos as int)) {
            Parsed::Done((k, v), n) => r matches Ok(((rk, rv), rp)) && rk == k && rv.model() == v
                && rp == pos + n,
            other => r == Err::<((u8, Param), usize), ParseError>(error_of(other)),
        },
    decreases input@.len() - pos, 0nat,
{
    let ghost s = input@.skip(pos as int);
    proof {
        lemma_varint_bounds(s);
    }
    let (fd, n1) = match variable_width_value_parser(input, pos) {
        Ok(x) => x,
        Err(e) => return Err(e),
    };
    assert(spec_varint(s) == Some((fd, n1 as nat)));
    assert(n1 <= input.len() - pos);
    let key = (fd >> 3u64) as u8;
    let p1 = pos + n1;
    let ghost rest = s.skip(n1 as int);
    assert(rest =~= input@.skip(p1 as int));
    if fd & 0x05 == 0x05 {
        match read_le_u32(input, p1) {
            Some(bits) => Ok(((key, Param::Float(bits)), p1 + 4)),
            None => Err(ParseError::Incomplete),
        }
    } else {
        proof {
            lemma_varint_bounds(rest);
        }
        let (fv, n2) = match variable_width_value_parser(input, p1) {
            Ok(x) => x,
            Err(e) => return Err(e),
        };
        assert(spec_varint(rest) == Some((fv, n2 as nat)));
        assert(n2 <= input.len() - p1);
        let p2 = p1 + n2;
        assert(rest.skip(n2 as int) =~= input@.skip(p2 as int));
        if fd & 0x02 == 0x02 {
            let (ps, p3) = match parse_params(input, p2, fv as usize) {
                Ok(x) => x,
                Err(e) => return Err(e),
            };
            Ok(((key, Param::Child(ps)), p3))
        } else {
            Ok(((key, Param::Number(fv)), p2))
        }
    }
}

/// Reads parameters at `pos` until `max_size` bytes have been read: the
/// parameters, grouped by key, and the position after them. A parameter
/// that ends beyond `max_size` bytes is malformed.
pub fn parse_params(input: &[u8], pos: usize, max_size: usize) -> (r: Result<(Params, usize), ParseError>)
    requires
        pos <= input@.len(),
    ensures
        match spec_params(input@.skip(pos as int), max_size as nat, Seq::empty()) {
            Parsed::Done(es, n) => r matches Ok((ps, rp)) && ps.model() == es && rp == pos + n,
            other => r == Err::<(Params, usize), ParseError>(error_of(other)),
        },
    decreases input@.len() - pos, 1nat,
{
    let mut params = Params { entries: Vec::new() };
    let mut p = pos;
    let mut left = max_size;
    proof {
        assert(params.model() =~= Seq::<(u8, Seq<PValue>)>::empty());
    }
    while left > 0
        invariant
            pos <= p <= input@.len(),
            spec_params(input@.skip(pos as int), max_size as nat, Seq::empty())
                == shift(spec_params(input@.skip(p as int), left as nat, params.model()), (p - pos) as nat),
        decreases left,
    {
        let ghost s = input@.skip(p as int);
        proof {
            lemma_param_bounds(s);
        }
        match parse_param(input, p) {
            Err(e) => {
                return Err(e);
            },
            Ok(((k, v), p2)) => {
                let n = p2 - p;
                if n > left {
                    return Err(ParseError::Malformed);
                }
                let ghost m = params.model();
                add_value(&mut params, k, v);
                assert(s.skip(n as int) =~= input@.skip(p2 as int));
                left = left - n;
                p = p2;
            },
        }
    }
    Ok((params, p))
}

/// Whether the single-precision float with the bits `a` is a NaN.
pub open spec fn is_nan_bits(a: u32) -> bool {
    a & 0x7F80_0000 == 0x7F80_0000 && a & 0x007F_FFFF != 0
}

/// Whether the single-precision floats with the bits `a` and `b` are equal
/// as numbers: the two zeros are equal, and a NaN equals nothing.
pub open spec fn float_bits_eq(a: u32, b: u32) -> bool {
    (a & 0x7FFF_FFFF == 0 && b & 0x7FFF_FFFF == 0) || (a == b && !is_nan_bits(a))
}

/// Whether two parameter values are equal: numbers as numbers, floats as
/// floats, and child lists as maps from keys to values.
pub open spec fn pvalue_eq(a: PValue, b: PValue) -> bool
    decreases a, 0int,
{
    match a {
        PValue::Number(x) => match b {
            PValue::Number(y) => x == y,
            _ => false,
        },
        PValue::Float(x) => match b {
            PValue::Float(y) => float_bits_eq(x, y),
            _ => false,
        },
        PValue::Child(es1) => match b {
            PValue::Child(es2) => es1.len() == es2.len() && entries_match(es1, es2, 0),
            _ => false,
        },
    }
}

/// Whether each entry of `es1` from the `i`-th on has its key in `es2`, with
/// equal values under it; with as many entries on both sides and distinct
/// keys, as in a map, the two are then equal as maps.
pub open spec fn entries_match(es1: Seq<(u8, Seq<PValue>)>, es2: Seq<(u8, Seq<PValue>)>, i: nat) -> bool
    decreases es1, es1.len() - i,
{
    if i >= es1.len() {
        true
    } else {
        let k = key_index(es2, es1[i as int].0);
        &&& k >= 0
        &&& es1[i as int].1.len() == es2[k].1.len()
        &&& values_match(es1[i as int].1, es2[k].1, 0)
        &&& entries_match(es1, es2, i + 1)
    }
}

/// Whether the values `vs1` from the `j`-th on equal those of `vs2`.
pub open spec fn values_match(vs1: Seq<PValue>, vs2: Seq<PValue>, j: nat) -> bool
    decreases vs1, vs1.len() - j,
{
    if j >= vs1.len() {
        true
    } else {
        pvalue_eq(vs1[j as int], vs2[j as int]) && values_match(vs1, vs2, j + 1)
    }
}

fn param_equal(a: &Param, b: &Param) -> (r: bool)
    ensures
        r == pvalue_eq(a.model(), b.model()),
    decreases a, 0int,
{
    match a {
        Param::Number(x) => match b {
            Param::Number(y) => *x == *y,
            _ => false,
        },
        Param::Float(x) => match b {
            Param::Float(y) => (*x & 0x7FFF_FFFF == 0 && *y & 0x7FFF_FFFF == 0) || (*x == *y && !(*x
                & 0x7F80_0000 == 0x7F80_0000 && *x & 0x007F_FFFF != 0)),
            _ => false,
        },
        Param::Child(p) => match b {
            Param::Child(q) => params_equal(p, q),
            _ => false,
        },
    }
}

fn params_equal(a: &Params, b: &Params) -> (r: bool)
    ensures
        r == (a.model().len() == b.model().len() && entries_match(a.model(), b.model(), 0)),
    decreases a, 1int,
{
    let ghost am = a.model();
    let ghost bm = b.model();
    if a.entries.len() != b.entries.len() {
        return false;
    }
    let mut i: usize = 0;
    while i < a.entries.len()
        invariant
            i <= a.entries@.len(),
            am == a.model(),
            bm == b.model(),
            am.len() == a.entries@.len(),
            entries_match(am, bm, 0) == entries_match(am, bm, i as nat),
        decreases a.entries@.len() - i,
    {
        proof {
            lemma_params_model_index(a, i as int);
        }
        let key = a.entries[i].key;
        match b.get(key) {
            None => {
                return false;
            },
            Some(vb) => {
                proof {
                    lemma_key_index_range(bm, key);
                    lemma_params_model_index(b, key_index(bm, key));
                    assert(decreases_to!(a => a.entries));
                    assert(decreases_to!(a.entries => a.entries@));
                    assert(decreases_to!(a.entries@ => a.entries@[i as int]));
                    assert(decreases_to!(a.entries@[i as int] => a.entries@[i as int].values));
                }
                let same = values_equal(&a.entries[i].values, vb);
                if !same {
                    return false;
                }
            },
        }
        i = i + 1;
    }
    true
}

fn values_equal(a: &Vec<Param>, b: &Vec<Param>) -> (r: bool)
    ensures
        r == (values_model(a@).len() == values_model(b@).len() && values_match(
            values_model(a@),
            values_model(b@),
            0,
        )),
    decreases a, 2int,
{
    let ghost am = values_model(a@);
    let ghost bm = values_model(b@);
    if a.len() != b.len() {
        return false;
    }
    let mut j: usize = 0;
    while j < a.len()
        invariant
            j <= a@.len(),
            a@.len() == b@.len(),
            am == values_model(a@),
            bm == values_model(b@),
            values_match(am, bm, 0) == values_match(am, bm, j as nat),
        decreases a@.len() - j,
    {
        proof {
            assert(decreases_to!(a => a@));
            assert(decreases_to!(a@ => a@[j as int]));
        }
        if !param_equal(&a[j], &b[j]) {
            return false;
        }
        j = j + 1;
    }
    true
}

impl PartialEq for Param {
    fn eq(&self, other: &Self) -> (r: bool) {
        param_equal(self, other)
    }
}

impl vstd::std_specs::cmp::PartialEqSpecImpl for Param {
    open spec fn obeys_eq_spec() -> bool {
        true
    }

    open spec fn eq_spec(&self, other: &Param) -> bool {
        pvalue_eq(self.model(), other.model())
    }
}

impl PartialEq for Params {
    fn eq(&self, other: &Self) -> (r: bool) {
        params_equal(self, other)
    }
}

impl vstd::std_specs::cmp::PartialEqSpecImpl for Params {
    open spec fn obeys_eq_spec() -> bool {
        true
    }

    open spec fn eq_spec(&self, other: &Params) -> bool {
        self.model().len() == other.model().len() && entries_match(self.model(), other.model(), 0)
    }
}

} // verus!
