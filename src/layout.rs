//! The layout policy that keeps successive evolutions binary compatible.
use vstd::prelude::*;

use crate::error::Error;

verus! {

/// A zero-size marker placed after each evolution's fields.
///
/// `T` is the tuple of the field types laid out so far; the marker carries
/// their joint alignment, so the next evolution starts past any trailing
/// padding of the previous one.
#[derive(Debug, Copy, PartialEq, Eq, PartialOrd, Ord, Hash)]
pub struct PadToAlign<T> {
    marker: core::marker::PhantomData<T>,
}

impl<T> Clone for PadToAlign<T> {
    fn clone(&self) -> (r: Self)
        ensures
            r == *self,
    {
        PadToAlign { marker: core::marker::PhantomData }
    }
}

impl<T> Default for PadToAlign<T> {
    fn default() -> (r: Self)
        ensures
            r == spec_pad::<T>(),
    {
        PadToAlign { marker: core::marker::PhantomData }
    }
}

/// The one value of the marker.
pub closed spec fn spec_pad<T>() -> PadToAlign<T> {
    PadToAlign { marker: core::marker::PhantomData }
}

/// The marker has a single value.
pub proof fn lemma_pad_unique<T>(p: PadToAlign<T>)
    ensures
        p == spec_pad::<T>(),
{
}

/// A short alias for `PadToAlign::default()`.
pub fn pad<T>() -> (r: PadToAlign<T>)
    ensures
        r == spec_pad::<T>(),
{
    PadToAlign { marker: core::marker::PhantomData }
}

} // verus!

verus! {

/// The size and alignment of one field, as the compiler lays it out.
#[derive(Debug, Clone, Copy, PartialEq, Eq, Structural)]
pub struct FieldShape {
    pub size: usize,
    pub align: usize,
}

/// The smallest multiple of `align` that is at least `offset`.
pub open spec fn align_up(offset: nat, align: nat) -> nat {
    if align == 0 || offset % align == 0 {
        offset
    } else {
        (offset + (align - offset % align)) as nat
    }
}

/// Where a run of fields laid out one after the other from `start` ends,
/// each field placed at the next multiple of its alignment.
pub open spec fn fields_end(start: nat, fields: Seq<FieldShape>) -> nat
    decreases fields.len(),
{
    if fields.len() == 0 {
        start
    } else {
        let prev = fields_end(start, fields.drop_last());
        (align_up(prev, fields.last().align as nat) + fields.last().size) as nat
    }
}

/// The largest alignment among `fields`, and 1 for no fields.
pub open spec fn fields_align(fields: Seq<FieldShape>) -> nat
    decreases fields.len(),
{
    if fields.len() == 0 {
        1
    } else {
        let prev = fields_align(fields.drop_last());
        if fields.last().align > prev {
            fields.last().align as nat
        } else {
            prev
        }
    }
}

/// The alignment of the evolution made of all the field groups in `groups`.
pub open spec fn groups_align(groups: Seq<Seq<FieldShape>>) -> nat
    decreases groups.len(),
{
    if groups.len() == 0 {
        1
    } else {
        let prev = groups_align(groups.drop_last());
        let last = fields_align(groups.last());
        if last > prev {
            last
        } else {
            prev
        }
    }
}

/// The archived size of each evolution: evolution `n` holds the groups
/// `0..=n`, and after each group the size is padded to the alignment of all
/// fields so far.
pub open spec fn evolution_sizes(groups: Seq<Seq<FieldShape>>) -> Seq<nat>
    decreases groups.len(),
{
    if groups.len() == 0 {
        Seq::empty()
    } else {
        let prev = evolution_sizes(groups.drop_last());
        let start: nat = if prev.len() == 0 {
            0
        } else {
            prev.last()
        };
        prev.push(align_up(fields_end(start, groups.last()), groups_align(groups)))
    }
}

/// Where evolution `g` begins: the size of the evolution before it.
pub open spec fn group_start(groups: Seq<Seq<FieldShape>>, g: int) -> nat {
    if g <= 0 {
        0
    } else {
        evolution_sizes(groups)[g - 1]
    }
}

/// The offset of field `i` of group `g`.
pub open spec fn field_offset(groups: Seq<Seq<FieldShape>>, g: int, i: int) -> nat {
    align_up(
        fields_end(group_start(groups, g), groups[g].take(i)),
        groups[g][i].align as nat,
    )
}

/// Every field has a nonzero alignment, every evolution is strictly larger
/// than the one before it (the first one larger than zero), and every size
/// fits in `usize`.
pub open spec fn layout_valid(groups: Seq<Seq<FieldShape>>) -> bool {
    let sizes = evolution_sizes(groups);
    &&& forall|g: int, i: int|
        0 <= g < groups.len() && 0 <= i < groups[g].len() ==> #[trigger] groups[g][i].align > 0
    &&& forall|g: int| 0 <= g < groups.len() ==> #[trigger] sizes[g] <= usize::MAX
    &&& forall|g: int| 0 <= g < groups.len() ==> group_start(groups, g) < #[trigger] sizes[g]
}

pub open spec fn shapes(groups: Seq<Vec<FieldShape>>) -> Seq<Seq<FieldShape>> {
    groups.map_values(|v: Vec<FieldShape>| v@)
}

pub open spec fn as_nats(s: Seq<usize>) -> Seq<nat> {
    s.map_values(|x: usize| x as nat)
}

proof fn lemma_align_up_bounds(offset: nat, align: nat)
    ensures
        offset <= align_up(offset, align),
        align > 0 ==> align_up(offset, align) < offset + align,
        align > 0 ==> align_up(offset, align) % align == 0,
{
    if align > 0 && offset % align != 0 {
        let o = offset as int;
        let a = align as int;
        let q = o / a;
        vstd::arithmetic::div_mod::lemma_fundamental_div_mod(o, a);
        assert(o + (a - o % a) == (q + 1) * a) by (nonlinear_arith)
            requires
                o == a * q + o % a,
        ;
        vstd::arithmetic::div_mod::lemma_mod_multiples_basic(q + 1, a);
    }
}

proof fn lemma_evolution_sizes_len(groups: Seq<Seq<FieldShape>>)
    ensures
        evolution_sizes(groups).len() == groups.len(),
    decreases groups.len(),
{
    if groups.len() > 0 {
        lemma_evolution_sizes_len(groups.drop_last());
    }
}

proof fn lemma_fields_end_prefix(start: nat, fields: Seq<FieldShape>, k: int)
    requires
        0 <= k <= fields.len(),
    ensures
        start <= fields_end(start, fields.take(k)),
        fields_end(start, fields.take(k)) <= fields_end(start, fields),
    decreases fields.len(),
{
    if k == fields.len() {
        assert(fields.take(k) =~= fields);
        if fields.len() > 0 {
            lemma_fields_end_prefix(start, fields.drop_last(), k - 1);
            assert(fields.drop_last().take(k - 1) =~= fields.drop_last());
            lemma_align_up_bounds(fields_end(start, fields.drop_last()), fields.last().align as nat);
        }
    } else {
        lemma_fields_end_prefix(start, fields.drop_last(), k);
        assert(fields.drop_last().take(k) =~= fields.take(k));
        lemma_align_up_bounds(fields_end(start, fields.drop_last()), fields.last().align as nat);
    }
}

/// The smallest multiple of `align` that is at least `offset`, or `None`
/// when it does not fit in `usize`.
pub fn checked_align_up(offset: usize, align: usize) -> (r: Option<usize>)
    requires
        align > 0,
    ensures
        r == (if align_up(offset as nat, align as nat) <= usize::MAX {
            Some(align_up(offset as nat, align as nat) as usize)
        } else {
            None::<usize>
        }),
{
    let rem = offset % align;
    if rem == 0 {
        Some(offset)
    } else {
        offset.checked_add(align - rem)
    }
}

} // verus!

verus! {

/// Computes the archived size of each evolution of a line from the shapes of
/// its field groups, in append order.
///
/// Fails with [`Error::InvalidBuilderFields`] exactly when the line breaks
/// the layout rules: a field has alignment zero, an evolution is not strictly
/// larger than the one before it, or a size does not fit in `usize`.
pub fn evolution_sizes_of(groups: &Vec<Vec<FieldShape>>) -> (r: Result<Vec<usize>, Error>)
    ensures
        r is Ok <==> layout_valid(shapes(groups@)),
        r matches Ok(sizes) ==> as_nats(sizes@) == evolution_sizes(shapes(groups@)),
        r matches Err(e) ==> e == Error::InvalidBuilderFields,
{
    let ghost all = shapes(groups@);
    let mut sizes: Vec<usize> = Vec::new();
    let mut end: usize = 0;
    let mut max_align: usize = 1;
    let mut g: usize = 0;
    proof {
        assert(all.take(0) =~= Seq::<Seq<FieldShape>>::empty());
        assert(as_nats(sizes@) =~= evolution_sizes(all.take(0)));
    }
    while g < groups.len()
        invariant
            all == shapes(groups@),
            all.len() == groups@.len(),
            0 <= g <= groups.len(),
            as_nats(sizes@) == evolution_sizes(all.take(g as int)),
            sizes@.len() == g,
            max_align as nat == groups_align(all.take(g as int)),
            max_align > 0,
            end as nat == group_start(all, g as int),
            layout_valid(all.take(g as int)),
        decreases groups.len() - g,
    {
        let fields = &groups[g];
        let ghost fs = fields@;
        assert(all[g as int] == fs);
        let mut off: usize = end;
        let mut al: usize = max_align;
        let mut k: usize = 0;
        proof {
            assert(fs.take(0) =~= Seq::<FieldShape>::empty());
        }
        while k < fields.len()
            invariant
                fs == fields@,
                all == shapes(groups@),
                all.len() == groups@.len(),
                g < all.len(),
                fs == all[g as int],
                as_nats(sizes@) == evolution_sizes(all.take(g as int)),
                sizes@.len() == g,
                max_align as nat == groups_align(all.take(g as int)),
                max_align > 0,
                end as nat == group_start(all, g as int),
                layout_valid(all.take(g as int)),
                0 <= k <= fs.len(),
                off as nat == fields_end(end as nat, fs.take(k as int)),
                al as nat == (if fields_align(fs.take(k as int)) > max_align as nat {
                    fields_align(fs.take(k as int))
                } else {
                    max_align as nat
                }),
                al > 0,
                forall|i: int| 0 <= i < k ==> #[trigger] fs[i].align > 0,
            decreases fs.len() - k,
        {
            let f = fields[k];
            assert(fs.take(k + 1).drop_last() =~= fs.take(k as int));
            if f.align == 0 {
                proof {
                    self_lemma_bad_align(all, g as int, k as int);
                }
                return Err(Error::InvalidBuilderFields);
            }
            let start = match checked_align_up(off, f.align) {
                Some(s) => s,
                None => {
                    proof {
                        lemma_overflow_in_group(all, g as int, k as int, end as nat);
                    }
                    return Err(Error::InvalidBuilderFields);
                },
            };
            if start > usize::MAX - f.size {
                proof {
                    lemma_overflow_in_group(all, g as int, k as int, end as nat);
                }
                return Err(Error::InvalidBuilderFields);
            }
            off = start + f.size;
            if f.align > al {
                al = f.align;
            }
            k += 1;
        }
        assert(fs.take(fs.len() as int) =~= fs);
        let ghost next = all.take(g + 1);
        assert(next.drop_last() =~= all.take(g as int));
        assert(next.last() == fs);
        let size = match checked_align_up(off, al) {
            Some(s) => s,
            None => {
                proof {
                    lemma_take_sizes(all, g as int);
                }
                return Err(Error::InvalidBuilderFields);
            },
        };
        if size <= end {
            proof {
                lemma_take_sizes(all, g as int);
            }
            return Err(Error::InvalidBuilderFields);
        }
        proof {
            lemma_evolution_sizes_len(all.take(g as int));
            lemma_take_sizes(all, g as int);
        }
        sizes.push(size);
        end = size;
        max_align = al;
        g += 1;
        proof {
            assert(as_nats(sizes@) =~= evolution_sizes(all.take(g as int)));
            lemma_evolution_sizes_len(all.take(g as int));
            lemma_valid_step(all, g as int);
        }
    }
    assert(all.take(g as int) =~= all);
    Ok(sizes)
}

} // verus!

verus! {

/// Append-only layout: the sizes of the first `k` evolutions of a line do not
/// depend on the field groups appended after them.
pub proof fn lemma_sizes_prefix(groups: Seq<Seq<FieldShape>>, k: int)
    requires
        0 <= k <= groups.len(),
    ensures
        evolution_sizes(groups.take(k)) == evolution_sizes(groups).take(k),
        evolution_sizes(groups).len() == groups.len(),
    decreases groups.len(),
{
    lemma_evolution_sizes_len(groups);
    if k == groups.len() {
        assert(groups.take(k) =~= groups);
        assert(evolution_sizes(groups).take(k) =~= evolution_sizes(groups));
    } else {
        let prev = groups.drop_last();
        lemma_sizes_prefix(prev, k);
        assert(prev.take(k) =~= groups.take(k));
        assert(evolution_sizes(groups).take(k) =~= evolution_sizes(prev).take(k));
    }
}

proof fn lemma_take_sizes(all: Seq<Seq<FieldShape>>, g: int)
    requires
        0 <= g < all.len(),
    ensures
        evolution_sizes(all.take(g + 1)) == evolution_sizes(all.take(g)).push(
            align_up(fields_end(group_start(all, g), all[g]), groups_align(all.take(g + 1))),
        ),
        evolution_sizes(all)[g] == align_up(
            fields_end(group_start(all, g), all[g]),
            groups_align(all.take(g + 1)),
        ),
        evolution_sizes(all.take(g)).len() == g,
{
    let next = all.take(g + 1);
    assert(next.drop_last() =~= all.take(g));
    assert(next.last() == all[g]);
    lemma_evolution_sizes_len(all.take(g));
    lemma_sizes_prefix(all, g);
    lemma_sizes_prefix(all, g + 1);
    if g > 0 {
        assert(evolution_sizes(all.take(g))[g - 1] == evolution_sizes(all)[g - 1]);
    }
    assert(evolution_sizes(next)[g] == evolution_sizes(all)[g]);
}

proof fn self_lemma_bad_align(all: Seq<Seq<FieldShape>>, g: int, k: int)
    requires
        0 <= g < all.len(),
        0 <= k < all[g].len(),
        all[g][k].align == 0,
    ensures
        !layout_valid(all),
{
    assert(all[g][k].align == 0);
}

proof fn lemma_overflow_in_group(all: Seq<Seq<FieldShape>>, g: int, k: int, end: nat)
    requires
        0 <= g < all.len(),
        0 <= k < all[g].len(),
        end == group_start(all, g),
        align_up(fields_end(end, all[g].take(k)), all[g][k].align as nat) + all[g][k].size
            > usize::MAX,
    ensures
        !layout_valid(all),
{
    let fs = all[g];
    assert(fs.take(k + 1).drop_last() =~= fs.take(k));
    lemma_fields_end_prefix(end, fs, k + 1);
    lemma_take_sizes(all, g);
    lemma_align_up_bounds(fields_end(end, fs), groups_align(all.take(g + 1)));
    assert(evolution_sizes(all)[g] > usize::MAX);
}

proof fn lemma_valid_step(all: Seq<Seq<FieldShape>>, g: int)
    requires
        0 < g <= all.len(),
        layout_valid(all.take(g - 1)),
        forall|i: int| 0 <= i < all[g - 1].len() ==> #[trigger] all[g - 1][i].align > 0,
        evolution_sizes(all)[g - 1] <= usize::MAX,
        group_start(all, g - 1) < evolution_sizes(all)[g - 1],
    ensures
        layout_valid(all.take(g)),
{
    let cur = all.take(g);
    let prev = all.take(g - 1);
    let s = evolution_sizes(all);
    let sc = evolution_sizes(cur);
    let sp = evolution_sizes(prev);
    lemma_sizes_prefix(all, g);
    lemma_sizes_prefix(all, g - 1);
    assert(sc == s.take(g));
    assert(sp == s.take(g - 1));
    assert forall|h: int, i: int| 0 <= h < cur.len() && 0 <= i < cur[h].len() implies #[trigger] cur[h][i].align > 0 by {
        if h < g - 1 {
            assert(prev[h] == cur[h]);
            assert(prev[h][i].align > 0);
        }
    }
    assert forall|h: int| 0 <= h < cur.len() implies #[trigger] sc[h] <= usize::MAX by {
        if h < g - 1 {
            assert(sp[h] <= usize::MAX);
        }
    }
    assert forall|h: int| 0 <= h < cur.len() implies group_start(cur, h) < #[trigger] sc[h] by {
        if h < g - 1 {
            assert(group_start(prev, h) < sp[h]);
        }
    }
}

} // verus!

verus! {

/// The alignment of evolution `n`: that of all fields of groups `0..=n`.
pub open spec fn evolution_align(groups: Seq<Seq<FieldShape>>, n: int) -> nat {
    groups_align(groups.take(n + 1))
}

/// A later evolution is at least as aligned as an earlier one.
pub proof fn lemma_align_monotone(groups: Seq<Seq<FieldShape>>, n: int, m: int)
    requires
        0 <= n <= m < groups.len(),
    ensures
        evolution_align(groups, n) <= evolution_align(groups, m),
    decreases m - n,
{
    if n < m {
        lemma_align_monotone(groups, n, m - 1);
        assert(groups.take(m + 1).drop_last() =~= groups.take(m));
    }
}

/// Append-only layout: a field keeps its offset in every later evolution.
pub proof fn lemma_offsets_prefix(groups: Seq<Seq<FieldShape>>, k: int, g: int, i: int)
    requires
        0 <= g < k <= groups.len(),
        0 <= i < groups[g].len(),
    ensures
        field_offset(groups.take(k), g, i) == field_offset(groups, g, i),
{
    lemma_sizes_prefix(groups, k);
    assert(groups.take(k)[g] == groups[g]);
    if g > 0 {
        assert(evolution_sizes(groups.take(k))[g - 1] == evolution_sizes(groups)[g - 1]);
    }
}

/// The first `k` evolutions of a valid line form a valid line.
pub proof fn lemma_valid_prefix(groups: Seq<Seq<FieldShape>>, k: int)
    requires
        0 <= k <= groups.len(),
        layout_valid(groups),
    ensures
        layout_valid(groups.take(k)),
{
    let pre = groups.take(k);
    lemma_sizes_prefix(groups, k);
    let s = evolution_sizes(groups);
    let sp = evolution_sizes(pre);
    assert(sp == s.take(k));
    assert forall|g: int, i: int| 0 <= g < pre.len() && 0 <= i < pre[g].len() implies #[trigger] pre[g][i].align > 0 by {
        assert(pre[g] == groups[g]);
        assert(groups[g][i].align > 0);
    }
    assert forall|g: int| 0 <= g < pre.len() implies #[trigger] sp[g] <= usize::MAX by {
        assert(s[g] <= usize::MAX);
    }
    assert forall|g: int| 0 <= g < pre.len() implies group_start(pre, g) < #[trigger] sp[g] by {
        assert(group_start(groups, g) < s[g]);
    }
}

} // verus!
