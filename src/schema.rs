//! The annotated record definition that the evolutions of a record are made
//! from: each field names the evolution that introduces it with a
//! `#[version = n]` attribute, or belongs to the evolution of the field
//! before it.
use vstd::prelude::*;

verus! {

/// The shape of one `#[version ...]` attribute on a field.
#[derive(Debug, Clone, Copy, PartialEq, Eq, Structural)]
pub enum VersionAttr {
    /// `#[version = n]` with an integer `n`.
    Integer(usize),
    /// `#[version = x]` where `x` is a literal that is not an integer.
    NotInteger,
    /// Any other form, such as `#[version]` or `#[version(n)]`.
    NotNameValue,
}

/// The argument given to the record attribute, if any.
#[derive(Debug, PartialEq, Eq)]
pub enum MacroArg {
    /// A bare path, such as `rkyv`.
    Path(String),
    /// Any other form.
    Other,
}

/// What can be wrong with an annotated record definition.
#[derive(Debug, Clone, Copy, PartialEq, Eq, Structural)]
pub enum SchemaError {
    VersionNotInteger,
    MalformedVersionAttribute,
    FieldWithoutVersion,
    FieldWithMultipleVersions,
    UnrecognizedArgument,
    MalformedArgument,
}

/// The options of the record attribute.
#[derive(Debug, Clone, Copy, PartialEq, Eq, Structural)]
pub struct Settings {
    /// Whether to lay out the evolutions for the archive as well.
    pub impl_rkyv: bool,
}

pub open spec fn spec_settings(attr: Option<MacroArg>) -> Result<Settings, SchemaError> {
    match attr {
        None => Ok(Settings { impl_rkyv: false }),
        Some(MacroArg::Path(p)) => if p@ == "rkyv"@ {
            Ok(Settings { impl_rkyv: true })
        } else {
            Err(SchemaError::UnrecognizedArgument)
        },
        Some(MacroArg::Other) => Err(SchemaError::MalformedArgument),
    }
}

impl Settings {
    /// Reads the settings from the argument of the record attribute.
    pub fn from_attr(attr: &Option<MacroArg>) -> (r: Result<Settings, SchemaError>)
        ensures
            r == spec_settings(*attr),
    {
        match attr {
            None => Ok(Settings { impl_rkyv: false }),
            Some(MacroArg::Path(p)) => {
                let rkyv = "rkyv".to_owned();
                proof {
                    reveal_strlit("rkyv");
                }
                if *p == rkyv {
                    Ok(Settings { impl_rkyv: true })
                } else {
                    Err(SchemaError::UnrecognizedArgument)
                }
            },
            Some(MacroArg::Other) => Err(SchemaError::MalformedArgument),
        }
    }
}

pub open spec fn spec_parse_version(attr: VersionAttr) -> Result<usize, SchemaError> {
    match attr {
        VersionAttr::Integer(n) => Ok(n),
        VersionAttr::NotInteger => Err(SchemaError::VersionNotInteger),
        VersionAttr::NotNameValue => Err(SchemaError::MalformedVersionAttribute),
    }
}

/// The version that one `#[version ...]` attribute names.
pub fn parse_version(attr: &VersionAttr) -> (r: Result<usize, SchemaError>)
    ensures
        r == spec_parse_version(*attr),
{
    match attr {
        VersionAttr::Integer(n) => Ok(*n),
        VersionAttr::NotInteger => Err(SchemaError::VersionNotInteger),
        VersionAttr::NotNameValue => Err(SchemaError::MalformedVersionAttribute),
    }
}

/// The versions that a field's attributes name, or the first error among them.
pub open spec fn spec_parse_all(attrs: Seq<VersionAttr>) -> Result<Seq<usize>, SchemaError>
    decreases attrs.len(),
{
    if attrs.len() == 0 {
        Ok(Seq::empty())
    } else {
        match spec_parse_all(attrs.drop_last()) {
            Err(e) => Err(e),
            Ok(vs) => match spec_parse_version(attrs.last()) {
                Err(e) => Err(e),
                Ok(v) => Ok(vs.push(v)),
            },
        }
    }
}

/// The version each field belongs to: the one its attribute names, or else
/// that of the field before it; or the first error, in field order.
pub open spec fn spec_assign(fields: Seq<Seq<VersionAttr>>) -> Result<Seq<usize>, SchemaError>
    decreases fields.len(),
{
    if fields.len() == 0 {
        Ok(Seq::empty())
    } else {
        match spec_assign(fields.drop_last()) {
            Err(e) => Err(e),
            Ok(vs) => match spec_parse_all(fields.last()) {
                Err(e) => Err(e),
                Ok(ps) => if ps.len() == 0 {
                    if vs.len() == 0 {
                        Err(SchemaError::FieldWithoutVersion)
                    } else {
                        Ok(vs.push(vs.last()))
                    }
                } else if ps.len() == 1 {
                    Ok(vs.push(ps[0]))
                } else {
                    Err(SchemaError::FieldWithMultipleVersions)
                },
            },
        }
    }
}

/// The indices, in order, of the fields assigned the version `v`.
pub open spec fn indices_with(assigned: Seq<usize>, v: usize) -> Seq<usize>
    decreases assigned.len(),
{
    if assigned.len() == 0 {
        Seq::empty()
    } else {
        let prev = indices_with(assigned.drop_last(), v);
        if assigned.last() == v {
            prev.push((assigned.len() - 1) as usize)
        } else {
            prev
        }
    }
}

/// `groups` lists each assigned version once, in increasing order, with the
/// indices of exactly the fields assigned to it.
pub open spec fn groups_of(groups: Seq<(usize, Vec<usize>)>, assigned: Seq<usize>) -> bool {
    &&& forall|g: int, h: int| 0 <= g < h < groups.len() ==> groups[g].0 < groups[h].0
    &&& forall|g: int| 0 <= g < groups.len() ==> #[trigger] groups[g].1@ == indices_with(assigned, groups[g].0)
    &&& forall|g: int| 0 <= g < groups.len() ==> indices_with(assigned, #[trigger] groups[g].0).len() > 0
    &&& forall|i: int| 0 <= i < assigned.len() ==> exists|g: int| 0 <= g < groups.len() && #[trigger] groups[g].0 == #[trigger] assigned[i]
}

proof fn lemma_indices_push(assigned: Seq<usize>, v: usize, w: usize)
    ensures
        indices_with(assigned.push(v), w) == (if v == w {
            indices_with(assigned, w).push(assigned.len() as usize)
        } else {
            indices_with(assigned, w)
        }),
{
    assert(assigned.push(v).drop_last() =~= assigned);
}

proof fn lemma_indices_absent(assigned: Seq<usize>, v: usize)
    requires
        forall|i: int| 0 <= i < assigned.len() ==> assigned[i] != v,
    ensures
        indices_with(assigned, v).len() == 0,
    decreases assigned.len(),
{
    if assigned.len() > 0 {
        lemma_indices_absent(assigned.drop_last(), v);
    }
}

} // verus!

verus! {

pub open spec fn attrs_view(fields: Seq<Vec<VersionAttr>>) -> Seq<Seq<VersionAttr>> {
    fields.map_values(|f: Vec<VersionAttr>| f@)
}

proof fn lemma_assign_prefix_err(fields: Seq<Seq<VersionAttr>>, j: int)
    requires
        0 <= j <= fields.len(),
        spec_assign(fields.take(j)) is Err,
    ensures
        spec_assign(fields) == spec_assign(fields.take(j)),
    decreases fields.len(),
{
    if j == fields.len() {
        assert(fields.take(j) =~= fields);
    } else {
        assert(fields.drop_last().take(j) =~= fields.take(j));
        lemma_assign_prefix_err(fields.drop_last(), j);
    }
}

/// The versions that all of a field's attributes name, or the first error
/// among them.
pub fn parse_all(attrs: &Vec<VersionAttr>) -> (r: Result<Vec<usize>, SchemaError>)
    ensures
        match spec_parse_all(attrs@) {
            Ok(vs) => r matches Ok(got) && got@ == vs,
            Err(e) => r == Err::<Vec<usize>, SchemaError>(e),
        },
{
    let mut out: Vec<usize> = Vec::new();
    let mut i: usize = 0;
    assert(attrs@.take(0) =~= Seq::<VersionAttr>::empty());
    while i < attrs.len()
        invariant
            0 <= i <= attrs@.len(),
            spec_parse_all(attrs@.take(i as int)) == Ok::<Seq<usize>, SchemaError>(out@),
        decreases attrs@.len() - i,
    {
        assert(attrs@.take(i + 1).drop_last() =~= attrs@.take(i as int));
        match parse_version(&attrs[i]) {
            Ok(v) => {
                out.push(v);
            },
            Err(e) => {
                proof {
                    lemma_parse_prefix_err(attrs@, i + 1);
                }
                return Err(e);
            },
        }
        i += 1;
    }
    assert(attrs@.take(i as int) =~= attrs@);
    Ok(out)
}

proof fn lemma_parse_prefix_err(attrs: Seq<VersionAttr>, j: int)
    requires
        0 <= j <= attrs.len(),
        spec_parse_all(attrs.take(j)) is Err,
    ensures
        spec_parse_all(attrs) == spec_parse_all(attrs.take(j)),
    decreases attrs.len(),
{
    if j == attrs.len() {
        assert(attrs.take(j) =~= attrs);
    } else {
        assert(attrs.drop_last().take(j) =~= attrs.take(j));
        lemma_parse_prefix_err(attrs.drop_last(), j);
    }
}

/// Groups the fields of a record definition by the version that introduces
/// them: each version once, in increasing order, with the indices of its
/// fields in definition order. Fails with the first error in field order.
pub fn collect_versions(fields: &Vec<Vec<VersionAttr>>) -> (r: Result<
    Vec<(usize, Vec<usize>)>,
    SchemaError,
>)
    ensures
        match spec_assign(attrs_view(fields@)) {
            Ok(assigned) => r matches Ok(groups) && groups_of(groups@, assigned),
            Err(e) => r == Err::<Vec<(usize, Vec<usize>)>, SchemaError>(e),
        },
{
    let ghost all = attrs_view(fields@);
    let mut groups: Vec<(usize, Vec<usize>)> = Vec::new();
    let mut last: Option<usize> = None;
    let mut k: usize = 0;
    let ghost mut assigned: Seq<usize> = Seq::empty();
    assert(all.take(0) =~= Seq::<Seq<VersionAttr>>::empty());
    while k < fields.len()
        invariant
            all == attrs_view(fields@),
            all.len() == fields@.len(),
            0 <= k <= fields@.len(),
            spec_assign(all.take(k as int)) == Ok::<Seq<usize>, SchemaError>(assigned),
            assigned.len() == k,
            last == (if k == 0 {
                None::<usize>
            } else {
                Some(assigned.last())
            }),
            groups_of(groups@, assigned),
        decreases fields@.len() - k,
    {
        let ghost next = all.take(k + 1);
        assert(next.drop_last() =~= all.take(k as int));
        assert(next.last() == fields@[k as int]@);
        let versions = match parse_all(&fields[k]) {
            Ok(vs) => vs,
            Err(e) => {
                proof {
                    lemma_assign_prefix_err(all, k + 1);
                }
                return Err(e);
            },
        };
        let version: usize = if versions.len() == 0 {
            match last {
                Some(v) => v,
                None => {
                    proof {
                        lemma_assign_prefix_err(all, k + 1);
                    }
                    return Err(SchemaError::FieldWithoutVersion);
                },
            }
        } else if versions.len() == 1 {
            versions[0]
        } else {
            proof {
                lemma_assign_prefix_err(all, k + 1);
            }
            return Err(SchemaError::FieldWithMultipleVersions);
        };
        let ghost new_assigned = assigned.push(version);
        assert(spec_assign(next) == Ok::<Seq<usize>, SchemaError>(new_assigned));
        let mut j: usize = 0;
        while j < groups.len() && groups[j].0 < version
            invariant
                0 <= j <= groups@.len(),
                groups_of(groups@, assigned),
                forall|g: int| 0 <= g < j ==> groups@[g].0 < version,
            decreases groups@.len() - j,
        {
            j += 1;
        }
        let ghost old_groups = groups@;
        if j < groups.len() && groups[j].0 == version {
            let (gv, mut idxs) = groups.remove(j);
            idxs.push(k);
            groups.insert(j, (gv, idxs));
            proof {
                assert(groups@ =~= old_groups.update(j as int, (gv, idxs)));
                lemma_indices_push(assigned, version, version);
                assert forall|g: int| 0 <= g < groups@.len() implies #[trigger] groups@[g].1@
                    == indices_with(new_assigned, groups@[g].0) by {
                    lemma_indices_push(assigned, version, groups@[g].0);
                }
                assert forall|g: int| 0 <= g < groups@.len() implies indices_with(
                    new_assigned,
                    #[trigger] groups@[g].0,
                ).len() > 0 by {
                    lemma_indices_push(assigned, version, groups@[g].0);
                }
                assert forall|i: int| 0 <= i < new_assigned.len() implies exists|g: int|
                    0 <= g < groups@.len() && #[trigger] groups@[g].0 == #[trigger] new_assigned[i] by {
                    if i < assigned.len() {
                        let g = choose|g: int| 0 <= g < old_groups.len() && old_groups[g].0 == assigned[i];
                        assert(groups@[g].0 == new_assigned[i]);
                    } else {
                        assert(groups@[j as int].0 == new_assigned[i]);
                    }
                }
            }
        } else {
            proof {
                assert forall|g: int| 0 <= g < old_groups.len() implies old_groups[g].0 != version by {
                    if g >= j {
                        assert(old_groups[j as int].0 > version);
                        if g > j {
                            assert(old_groups[j as int].0 < old_groups[g].0);
                        }
                    }
                }
                assert forall|i: int| 0 <= i < assigned.len() implies assigned[i] != version by {
                    let g = choose|g: int| 0 <= g < old_groups.len() && old_groups[g].0 == assigned[i];
                }
                lemma_indices_absent(assigned, version);
                lemma_indices_push(assigned, version, version);
            }
            let fresh: Vec<usize> = vec![k];
            groups.insert(j, (version, fresh));
            proof {
                assert(groups@ =~= old_groups.insert(j as int, (version, fresh)));
                assert(indices_with(new_assigned, version) =~= fresh@);
                assert forall|g: int, h: int| 0 <= g < h < groups@.len() implies groups@[g].0
                    < groups@[h].0 by {
                    if h == j {
                        assert(groups@[g] == old_groups[g]);
                    } else if g == j {
                        assert(groups@[h] == old_groups[h - 1]);
                        assert(old_groups[j as int].0 > version);
                        if h - 1 > j {
                            assert(old_groups[j as int].0 < old_groups[h - 1].0);
                        }
                    } else if g < j && h > j {
                        assert(groups@[g] == old_groups[g]);
                        assert(groups@[h] == old_groups[h - 1]);
                        assert(old_groups[j as int].0 > version);
                    } else if h < j {
                        assert(groups@[g] == old_groups[g] && groups@[h] == old_groups[h]);
                    } else {
                        assert(groups@[g] == old_groups[g - 1] && groups@[h] == old_groups[h - 1]);
                    }
                }
                assert forall|g: int| 0 <= g < groups@.len() implies #[trigger] groups@[g].1@
                    == indices_with(new_assigned, groups@[g].0) by {
                    lemma_indices_push(assigned, version, groups@[g].0);
                    if g < j {
                        assert(groups@[g] == old_groups[g]);
                    } else if g > j {
                        assert(groups@[g] == old_groups[g - 1]);
                    }
                }
                assert forall|g: int| 0 <= g < groups@.len() implies indices_with(
                    new_assigned,
                    #[trigger] groups@[g].0,
                ).len() > 0 by {
                    lemma_indices_push(assigned, version, groups@[g].0);
                    if g < j {
                        assert(groups@[g] == old_groups[g]);
                    } else if g > j {
                        assert(groups@[g] == old_groups[g - 1]);
                    }
                }
                assert forall|i: int| 0 <= i < new_assigned.len() implies exists|g: int|
                    0 <= g < groups@.len() && #[trigger] groups@[g].0 == #[trigger] new_assigned[i] by {
                    if i < assigned.len() {
                        let g = choose|g: int| 0 <= g < old_groups.len() && old_groups[g].0 == assigned[i];
                        if g < j {
                            assert(groups@[g].0 == new_assigned[i]);
                        } else {
                            assert(groups@[g + 1].0 == new_assigned[i]);
                        }
                    } else {
                        assert(groups@[j as int].0 == new_assigned[i]);
                    }
                }
            }
        }
        k += 1;
        last = Some(version);
        proof {
            assigned = new_assigned;
        }
    }
    assert(all.take(k as int) =~= all);
    Ok(groups)
}

} // verus!
