//! The quantified guarantees of the lowering: endianness propagation,
//! field-order preservation, destination uniqueness, size-reference
//! resolution, and enum lowering, each proved over the pipeline's model.

use vstd::prelude::*;
use crate::hir::{Endianness, HirPrimitiveType, SpecHirEnum, SpecHirField, SpecHirFormat,
    SpecHirType, SpecHirTypeDef};
use crate::lir::{SpecLirField, SpecLirOp, SpecLirType, deep_dests, spec_op_dest,
    spec_op_endianness_deep, spec_op_is_read, spec_op_src};
use crate::pipeline::{
    SpecPipelineError, SpecReadState, find_enum_model, lookup_var_model, lower_model,
    lower_read_model, lower_struct_model, lower_types_model, lower_write_model,
    prim_hir_type_model, read_pass_model, write_pass_model, ty_size,
};

verus! {

/// The primitive read operation an enum-typed field lowers to.
pub open spec fn prim_read_op(p: HirPrimitiveType, dest: int, e: Endianness) -> SpecLirOp {
    match p {
        HirPrimitiveType::U8 => SpecLirOp::ReadU8 { dest },
        HirPrimitiveType::U16 => SpecLirOp::ReadU16 { dest, endianness: e },
        HirPrimitiveType::U32 => SpecLirOp::ReadU32 { dest, endianness: e },
        HirPrimitiveType::U64 => SpecLirOp::ReadU64 { dest, endianness: e },
        HirPrimitiveType::I8 => SpecLirOp::ReadI8 { dest },
        HirPrimitiveType::I16 => SpecLirOp::ReadI16 { dest, endianness: e },
        HirPrimitiveType::I32 => SpecLirOp::ReadI32 { dest, endianness: e },
        HirPrimitiveType::I64 => SpecLirOp::ReadI64 { dest, endianness: e },
    }
}

/// The primitive write operation an enum-typed field lowers to.
pub open spec fn prim_write_op(p: HirPrimitiveType, src: int, e: Endianness) -> SpecLirOp {
    match p {
        HirPrimitiveType::U8 => SpecLirOp::WriteU8 { src },
        HirPrimitiveType::U16 => SpecLirOp::WriteU16 { src, endianness: e },
        HirPrimitiveType::U32 => SpecLirOp::WriteU32 { src, endianness: e },
        HirPrimitiveType::U64 => SpecLirOp::WriteU64 { src, endianness: e },
        HirPrimitiveType::I8 => SpecLirOp::WriteI8 { src },
        HirPrimitiveType::I16 => SpecLirOp::WriteI16 { src, endianness: e },
        HirPrimitiveType::I32 => SpecLirOp::WriteI32 { src, endianness: e },
        HirPrimitiveType::I64 => SpecLirOp::WriteI64 { src, endianness: e },
    }
}

/// The sibling map a field list induces.
pub open spec fn map_of(lf: Seq<SpecLirField>) -> Seq<(Seq<char>, int)> {
    Seq::new(lf.len(), |j: int| (lf[j].name, lf[j].var_id))
}

proof fn lemma_deep_concat(p0: SpecLirOp, dest: int, ctr: int, c2: int, eop: SpecLirOp)
    requires
        deep_dests(p0) == Seq::empty().push(dest) + deep_dests(eop),
        deep_dests(eop).len() >= 1,
        deep_dests(eop)[0] == ctr,
        c2 >= ctr + 1,
        forall|a: int|
            1 <= a < deep_dests(eop).len() ==> ctr + 1 <= #[trigger] deep_dests(eop)[a] < c2,
        forall|a: int, b: int|
            1 <= a < b < deep_dests(eop).len() ==> #[trigger] deep_dests(eop)[a]
                < #[trigger] deep_dests(eop)[b],
    ensures
        deep_dests(p0).len() >= 1,
        deep_dests(p0)[0] == dest,
        forall|a: int| 1 <= a < deep_dests(p0).len() ==> ctr <= #[trigger] deep_dests(p0)[a] < c2,
        forall|a: int, b: int|
            1 <= a < b < deep_dests(p0).len() ==> #[trigger] deep_dests(p0)[a]
                < #[trigger] deep_dests(p0)[b],
{
    let s = deep_dests(p0);
    assert(s.len() == 1 + deep_dests(eop).len());
    assert forall|a: int| 1 <= a < s.len() implies ctr <= #[trigger] s[a] < c2 by {
        assert(s[a] == deep_dests(eop)[a - 1]);
        if a == 1 {
            assert(deep_dests(eop)[0] == ctr);
        }
    };
    assert forall|a: int, b: int|
        1 <= a < b < s.len() implies #[trigger] s[a] < #[trigger] s[b] by {
        assert(s[a] == deep_dests(eop)[a - 1]);
        assert(s[b] == deep_dests(eop)[b - 1]);
        if a == 1 {
            assert(deep_dests(eop)[0] == ctr);
            assert(deep_dests(eop)[b - 1] >= ctr + 1);
        }
    };
}

proof fn lemma_lower_read_facts(
    t: SpecHirType,
    dest: int,
    e: Endianness,
    enums: Seq<SpecHirEnum>,
    map: Seq<(Seq<char>, int)>,
    ctr: int,
)
    requires
        lower_read_model(t, dest, e, enums, map, ctr) is Ok,
    ensures
        ({
            let p = lower_read_model(t, dest, e, enums, map, ctr)->Ok_0;
            &&& spec_op_dest(p.0) == Some(dest)
            &&& spec_op_is_read(p.0)
            &&& spec_op_endianness_deep(p.0, e)
            &&& p.1 >= ctr
            &&& deep_dests(p.0).len() >= 1
            &&& deep_dests(p.0)[0] == dest
            &&& (forall|a: int|
                1 <= a < deep_dests(p.0).len() ==> ctr <= #[trigger] deep_dests(p.0)[a] < p.1)
            &&& (forall|a: int, b: int|
                1 <= a < b < deep_dests(p.0).len() ==> #[trigger] deep_dests(p.0)[a]
                    < #[trigger] deep_dests(p.0)[b])
            &&& (p.0 matches SpecLirOp::ReadDynamicArray { size_var, .. } ==> exists|
                nm: Seq<char>,
            |
                lookup_var_model(map, nm, map.len() as int) == Some(size_var))
        }),
    decreases ty_size(t),
{
    match t {
        SpecHirType::Array { element_type, .. } => {
            lemma_lower_read_facts(*element_type, ctr, e, enums, map, ctr + 1);
            let p = lower_read_model(t, dest, e, enums, map, ctr)->Ok_0;
            let ep = lower_read_model(*element_type, ctr, e, enums, map, ctr + 1)->Ok_0;
            assert(deep_dests(p.0) == Seq::empty().push(dest) + deep_dests(ep.0));
            lemma_deep_concat(p.0, dest, ctr, p.1, ep.0);
        },
        SpecHirType::DynamicArray { element_type, size_field } => {
            lemma_lower_read_facts(*element_type, ctr, e, enums, map, ctr + 1);
            let p = lower_read_model(t, dest, e, enums, map, ctr)->Ok_0;
            let ep = lower_read_model(*element_type, ctr, e, enums, map, ctr + 1)->Ok_0;
            assert(deep_dests(p.0) == Seq::empty().push(dest) + deep_dests(ep.0));
            lemma_deep_concat(p.0, dest, ctr, p.1, ep.0);
            match p.0 {
                SpecLirOp::ReadDynamicArray { size_var, .. } => {
                    assert(lookup_var_model(map, size_field, map.len() as int) == Some(size_var));
                },
                _ => {},
            }
        },
        SpecHirType::UntilEofArray { element_type } => {
            lemma_lower_read_facts(*element_type, ctr, e, enums, map, ctr + 1);
            let p = lower_read_model(t, dest, e, enums, map, ctr)->Ok_0;
            let ep = lower_read_model(*element_type, ctr, e, enums, map, ctr + 1)->Ok_0;
            assert(deep_dests(p.0) == Seq::empty().push(dest) + deep_dests(ep.0));
            lemma_deep_concat(p.0, dest, ctr, p.1, ep.0);
        },
        SpecHirType::UntilConditionArray { element_type, .. } => {
            lemma_lower_read_facts(*element_type, ctr, e, enums, map, ctr + 1);
            let p = lower_read_model(t, dest, e, enums, map, ctr)->Ok_0;
            let ep = lower_read_model(*element_type, ctr, e, enums, map, ctr + 1)->Ok_0;
            assert(deep_dests(p.0) == Seq::empty().push(dest) + deep_dests(ep.0));
            lemma_deep_concat(p.0, dest, ctr, p.1, ep.0);
        },
        SpecHirType::Enum(nm) => {
            match find_enum_model(enums, nm, 0) {
                Some(ed) => {
                    lemma_lower_read_facts(
                        prim_hir_type_model(ed.underlying_type),
                        dest,
                        e,
                        enums,
                        map,
                        ctr,
                    );
                },
                None => {},
            }
        },
        _ => {},
    }
}

proof fn lemma_lower_write_facts(
    t: SpecHirType,
    src: int,
    e: Endianness,
    enums: Seq<SpecHirEnum>,
    map: Seq<(Seq<char>, int)>,
    ctr: int,
)
    requires
        lower_write_model(t, src, e, enums, map, ctr) is Ok,
    ensures
        ({
            let p = lower_write_model(t, src, e, enums, map, ctr)->Ok_0;
            &&& spec_op_dest(p.0) is None
            &&& spec_op_src(p.0) == Some(src)
            &&& spec_op_endianness_deep(p.0, e)
            &&& p.1 >= ctr
        }),
    decreases ty_size(t),
{
    match t {
        SpecHirType::Array { element_type, .. } => {
            lemma_lower_write_facts(*element_type, ctr, e, enums, map, ctr + 1);
        },
        SpecHirType::DynamicArray { element_type, .. } => {
            lemma_lower_write_facts(*element_type, ctr, e, enums, map, ctr + 1);
        },
        SpecHirType::UntilEofArray { element_type } => {
            lemma_lower_write_facts(*element_type, ctr, e, enums, map, ctr + 1);
        },
        SpecHirType::UntilConditionArray { element_type, .. } => {
            lemma_lower_write_facts(*element_type, ctr, e, enums, map, ctr + 1);
        },
        SpecHirType::Enum(nm) => {
            match find_enum_model(enums, nm, 0) {
                Some(ed) => {
                    lemma_lower_write_facts(
                        prim_hir_type_model(ed.underlying_type),
                        src,
                        e,
                        enums,
                        map,
                        ctr,
                    );
                },
                None => {},
            }
        },
        _ => {},
    }
}

/// Every `ReadDynamicArray` in an operation tree, nested element
/// operations included, draws its size variable from the sibling map.
pub open spec fn deep_sizes_from(op: SpecLirOp, map: Seq<(Seq<char>, int)>) -> bool
    decreases op,
{
    match op {
        SpecLirOp::ReadArray { element_op, .. } => deep_sizes_from(*element_op, map),
        SpecLirOp::ReadDynamicArray { element_op, size_var, .. } => (exists|nm: Seq<char>|
            lookup_var_model(map, nm, map.len() as int) == Some(size_var)) && deep_sizes_from(
            *element_op,
            map,
        ),
        SpecLirOp::ReadUntilEofArray { element_op, .. } => deep_sizes_from(*element_op, map),
        SpecLirOp::ReadUntilConditionArray { element_op, .. } => deep_sizes_from(
            *element_op,
            map,
        ),
        _ => true,
    }
}

/// Size references resolve at every nesting depth: each
/// `ReadDynamicArray` that lowering a read produces, the element
/// operations of nested arrays included, names a size variable bound in
/// the sibling map the lowering was handed.
pub proof fn lemma_nested_size_resolution(
    t: SpecHirType,
    dest: int,
    e: Endianness,
    enums: Seq<SpecHirEnum>,
    map: Seq<(Seq<char>, int)>,
    ctr: int,
)
    requires
        lower_read_model(t, dest, e, enums, map, ctr) is Ok,
    ensures
        deep_sizes_from(lower_read_model(t, dest, e, enums, map, ctr)->Ok_0.0, map),
    decreases ty_size(t),
{
    match t {
        SpecHirType::Array { element_type, .. } => {
            lemma_nested_size_resolution(*element_type, ctr, e, enums, map, ctr + 1);
        },
        SpecHirType::DynamicArray { element_type, size_field } => {
            lemma_nested_size_resolution(*element_type, ctr, e, enums, map, ctr + 1);
            let p = lower_read_model(t, dest, e, enums, map, ctr)->Ok_0;
            match p.0 {
                SpecLirOp::ReadDynamicArray { size_var, .. } => {
                    assert(lookup_var_model(map, size_field, map.len() as int) == Some(size_var));
                },
                _ => {},
            }
        },
        SpecHirType::UntilEofArray { element_type } => {
            lemma_nested_size_resolution(*element_type, ctr, e, enums, map, ctr + 1);
        },
        SpecHirType::UntilConditionArray { element_type, .. } => {
            lemma_nested_size_resolution(*element_type, ctr, e, enums, map, ctr + 1);
        },
        SpecHirType::Enum(nm) => {
            match find_enum_model(enums, nm, 0) {
                Some(ed) => {
                    lemma_nested_size_resolution(
                        prim_hir_type_model(ed.underlying_type),
                        dest,
                        e,
                        enums,
                        map,
                        ctr,
                    );
                },
                None => {},
            }
        },
        _ => {},
    }
}

/// An enum-typed read lowers to exactly the primitive read of the
/// enum's underlying type, at the same destination and endianness, and
/// consumes no fresh variable.
pub proof fn lemma_enum_read_lowering(
    nm: Seq<char>,
    dest: int,
    e: Endianness,
    enums: Seq<SpecHirEnum>,
    map: Seq<(Seq<char>, int)>,
    ctr: int,
)
    requires
        find_enum_model(enums, nm, 0) is Some,
    ensures
        lower_read_model(SpecHirType::Enum(nm), dest, e, enums, map, ctr) == Ok::<
            _,
            SpecPipelineError,
        >((prim_read_op(find_enum_model(enums, nm, 0)->0.underlying_type, dest, e), ctr)),
{
    reveal_with_fuel(lower_read_model, 2);
}

/// An enum-typed write lowers to exactly the primitive write of the
/// enum's underlying type, from the same source and with the same
/// endianness, and consumes no fresh variable.
pub proof fn lemma_enum_write_lowering(
    nm: Seq<char>,
    src: int,
    e: Endianness,
    enums: Seq<SpecHirEnum>,
    map: Seq<(Seq<char>, int)>,
    ctr: int,
)
    requires
        find_enum_model(enums, nm, 0) is Some,
    ensures
        lower_write_model(SpecHirType::Enum(nm), src, e, enums, map, ctr) == Ok::<
            _,
            SpecPipelineError,
        >((prim_write_op(find_enum_model(enums, nm, 0)->0.underlying_type, src, e), ctr)),
{
    reveal_with_fuel(lower_write_model, 2);
}

proof fn lemma_lookup_found(map: Seq<(Seq<char>, int)>, nm: Seq<char>, i: int)
    requires
        lookup_var_model(map, nm, i) is Some,
        i <= map.len(),
    ensures
        exists|j: int|
            0 <= j < i && #[trigger] map[j] == (nm, lookup_var_model(map, nm, i)->0),
    decreases i,
{
    if i > 0 {
        if map[i - 1].0 == nm {
            assert(map[i - 1] == (nm, lookup_var_model(map, nm, i)->0));
        } else {
            lemma_lookup_found(map, nm, i - 1);
        }
    }
}

/// The well-formedness of the read pass at field index `i`.
pub open spec fn read_state_ok(
    fields: Seq<SpecHirField>,
    i: int,
    e: Endianness,
    enums: Seq<SpecHirEnum>,
    st: SpecReadState,
    lo: int,
) -> bool {
    &&& lo <= st.ctr
    &&& (forall|k: int| 0 <= k < i ==> lo <= #[trigger] st.lfields[k].var_id)
    &&& st.ops.len() == i
    &&& st.lfields.len() == i
    &&& st.fvars.len() == i
    &&& st.map == map_of(st.lfields)
    &&& (forall|k: int| 0 <= k < i ==> #[trigger] st.fvars[k] == st.lfields[k].var_id)
    &&& (forall|k: int|
        0 <= k < i ==> #[trigger] spec_op_dest(st.ops[k]) == Some(st.lfields[k].var_id))
    &&& (forall|k: int| 0 <= k < i ==> spec_op_is_read(#[trigger] st.ops[k]))
    &&& (forall|k: int|
        0 <= k < i ==> #[trigger] deep_dests(st.ops[k]).len() >= 1 && deep_dests(st.ops[k])[0]
            == st.lfields[k].var_id)
    &&& (forall|k: int, a: int|
        0 <= k < i && 0 <= a < deep_dests(st.ops[k]).len() ==> lo <= #[trigger] deep_dests(
            st.ops[k],
        )[a] < st.ctr)
    &&& (forall|k: int, a: int, b: int|
        0 <= k < i && 0 <= a < b < deep_dests(st.ops[k]).len() ==> #[trigger] deep_dests(
            st.ops[k],
        )[a] < #[trigger] deep_dests(st.ops[k])[b])
    &&& (forall|k1: int, k2: int, a: int, b: int|
        0 <= k1 < k2 < i && 0 <= a < deep_dests(st.ops[k1]).len() && 0 <= b < deep_dests(
            st.ops[k2],
        ).len() ==> #[trigger] deep_dests(st.ops[k1])[a] < #[trigger] deep_dests(st.ops[k2])[b])
    &&& (forall|k1: int, k2: int|
        0 <= k1 < k2 < i ==> #[trigger] st.lfields[k1].var_id < #[trigger] st.lfields[k2].var_id)
    &&& (forall|k: int| 0 <= k < i ==> #[trigger] st.lfields[k].var_id < st.ctr)
    &&& (forall|k: int| 0 <= k < i ==> spec_op_endianness_deep(#[trigger] st.ops[k], e))
    &&& (forall|k: int| 0 <= k < i ==> #[trigger] st.lfields[k].name == fields[k].name)
    &&& (forall|k: int|
        0 <= k < i ==> (#[trigger] st.ops[k] matches SpecLirOp::ReadDynamicArray {
            size_var,
            ..
        } ==> exists|j: int| 0 <= j < k && #[trigger] st.lfields[j].var_id == size_var))
    &&& (forall|k: int|
        0 <= k < i ==> ((fields[k].field_type matches SpecHirType::Enum(nm)
            && find_enum_model(enums, nm, 0) is Some) ==> #[trigger] st.ops[k] == prim_read_op(
            find_enum_model(enums, fields[k].field_type->Enum_0, 0)->0.underlying_type,
            st.lfields[k].var_id,
            e,
        )))
}

proof fn lemma_read_pass(
    fields: Seq<SpecHirField>,
    i: int,
    e: Endianness,
    enums: Seq<SpecHirEnum>,
    st: SpecReadState,
    lo: int,
)
    requires
        0 <= i <= fields.len(),
        read_pass_model(fields, i, e, enums, st) is Ok,
        read_state_ok(fields, i, e, enums, st, lo),
    ensures
        ({
            let st2 = read_pass_model(fields, i, e, enums, st)->Ok_0;
            read_state_ok(fields, fields.len() as int, e, enums, st2, lo) && st2.ctr >= st.ctr
        }),
    decreases fields.len() - i,
{
    if i < fields.len() {
        let f = fields[i];
        let fv = st.ctr;
        let lf = SpecLirField {
            name: f.name,
            doc: f.doc,
            var_id: fv,
            type_info: crate::pipeline::hir_type_text(f.field_type),
            assertion: f.assertion,
        };
        let m = lower_read_model(f.field_type, fv, e, enums, st.map, st.ctr + 1);
        let p = m->Ok_0;
        lemma_lower_read_facts(f.field_type, fv, e, enums, st.map, st.ctr + 1);
        let st1 = SpecReadState {
            ops: st.ops.push(p.0),
            lfields: st.lfields.push(lf),
            fvars: st.fvars.push(fv),
            map: st.map.push((f.name, fv)),
            ctr: p.1,
        };
        assert(st1.map =~= map_of(st1.lfields));
        assert forall|k: int|
            0 <= k < i + 1 implies #[trigger] spec_op_dest(st1.ops[k]) == Some(
            st1.lfields[k].var_id,
        ) by {
            if k < i {
                assert(st1.ops[k] == st.ops[k]);
                assert(st1.lfields[k] == st.lfields[k]);
            } else {
                assert(st1.ops[k] == p.0);
                assert(st1.lfields[k] == lf);
            }
        };
        assert forall|k: int|
            0 <= k < i + 1 implies spec_op_endianness_deep(#[trigger] st1.ops[k], e) by {
            if k < i {
                assert(st1.ops[k] == st.ops[k]);
            } else {
                assert(st1.ops[k] == p.0);
            }
        };
        assert forall|k: int| 0 <= k < i + 1 implies spec_op_is_read(#[trigger] st1.ops[k]) by {
            if k < i {
                assert(st1.ops[k] == st.ops[k]);
            } else {
                assert(st1.ops[k] == p.0);
            }
        };
        assert forall|k: int|
            0 <= k < i + 1 implies #[trigger] deep_dests(st1.ops[k]).len() >= 1 && deep_dests(
            st1.ops[k],
        )[0] == st1.lfields[k].var_id by {
            if k < i {
                assert(st1.ops[k] == st.ops[k]);
                assert(st1.lfields[k] == st.lfields[k]);
            } else {
                assert(st1.ops[k] == p.0);
                assert(st1.lfields[k] == lf);
            }
        };
        assert forall|k: int, a: int|
            0 <= k < i + 1 && 0 <= a < deep_dests(st1.ops[k]).len() implies lo
            <= #[trigger] deep_dests(st1.ops[k])[a] < st1.ctr by {
            if k < i {
                assert(st1.ops[k] == st.ops[k]);
                assert(lo <= deep_dests(st.ops[k])[a] < st.ctr);
            } else {
                assert(st1.ops[k] == p.0);
                if a == 0 {
                    assert(deep_dests(p.0)[0] == fv);
                } else {
                    assert(st.ctr + 1 <= deep_dests(p.0)[a] < p.1);
                }
            }
        };
        assert forall|k: int, a: int, b: int|
            0 <= k < i + 1 && 0 <= a < b < deep_dests(st1.ops[k]).len() implies #[trigger] deep_dests(
            st1.ops[k],
        )[a] < #[trigger] deep_dests(st1.ops[k])[b] by {
            if k < i {
                assert(st1.ops[k] == st.ops[k]);
                assert(deep_dests(st.ops[k])[a] < deep_dests(st.ops[k])[b]);
            } else {
                assert(st1.ops[k] == p.0);
                if a == 0 {
                    assert(deep_dests(p.0)[0] == fv);
                    assert(st.ctr + 1 <= deep_dests(p.0)[b]);
                } else {
                    assert(deep_dests(p.0)[a] < deep_dests(p.0)[b]);
                }
            }
        };
        assert forall|k1: int, k2: int, a: int, b: int|
            0 <= k1 < k2 < i + 1 && 0 <= a < deep_dests(st1.ops[k1]).len() && 0 <= b < deep_dests(
            st1.ops[k2],
        ).len() implies #[trigger] deep_dests(st1.ops[k1])[a] < #[trigger] deep_dests(
            st1.ops[k2],
        )[b] by {
            assert(st1.ops[k1] == st.ops[k1]);
            if k2 < i {
                assert(st1.ops[k2] == st.ops[k2]);
                assert(deep_dests(st.ops[k1])[a] < deep_dests(st.ops[k2])[b]);
            } else {
                assert(st1.ops[k2] == p.0);
                assert(deep_dests(st.ops[k1])[a] < st.ctr);
                if b == 0 {
                    assert(deep_dests(p.0)[0] == fv);
                } else {
                    assert(st.ctr + 1 <= deep_dests(p.0)[b]);
                }
            }
        };
        assert forall|k: int|
            0 <= k < i + 1 implies (#[trigger] st1.ops[k]
                matches SpecLirOp::ReadDynamicArray { size_var, .. } ==> exists|j: int|
                0 <= j < k && #[trigger] st1.lfields[j].var_id == size_var) by {
            if k < i {
                assert(st1.ops[k] == st.ops[k]);
                match st.ops[k] {
                    SpecLirOp::ReadDynamicArray { size_var, .. } => {
                        let j = choose|j: int|
                            0 <= j < k && #[trigger] st.lfields[j].var_id == size_var;
                        assert(st1.lfields[j].var_id == size_var);
                    },
                    _ => {},
                }
            } else {
                assert(st1.ops[k] == p.0);
                match p.0 {
                    SpecLirOp::ReadDynamicArray { size_var, .. } => {
                        let nm = choose|nm: Seq<char>|
                            lookup_var_model(st.map, nm, st.map.len() as int) == Some(size_var);
                        lemma_lookup_found(st.map, nm, st.map.len() as int);
                        let j = choose|j: int|
                            0 <= j < st.map.len() && #[trigger] st.map[j] == (nm, size_var);
                        assert(st.map[j].1 == st.lfields[j].var_id);
                        assert(st1.lfields[j].var_id == size_var);
                    },
                    _ => {},
                }
            }
        };
        assert forall|k: int|
            0 <= k < i + 1 implies ((fields[k].field_type matches SpecHirType::Enum(nm)
                && find_enum_model(enums, nm, 0) is Some) ==> #[trigger] st1.ops[k]
                == prim_read_op(
                find_enum_model(enums, fields[k].field_type->Enum_0, 0)->0.underlying_type,
                st1.lfields[k].var_id,
                e,
            )) by {
            if k < i {
                assert(st1.ops[k] == st.ops[k]);
                assert(st1.lfields[k] == st.lfields[k]);
            } else {
                assert(st1.ops[k] == p.0);
                assert(st1.lfields[k] == lf);
                match f.field_type {
                    SpecHirType::Enum(nm2) => {
                        match find_enum_model(enums, nm2, 0) {
                            Some(ed) => {
                                reveal_with_fuel(crate::pipeline::lower_read_model, 2);
                                assert(p.0 == prim_read_op(ed.underlying_type, fv, e));
                            },
                            None => {},
                        }
                    },
                    _ => {},
                }
            }
        };
        assert(read_state_ok(fields, i + 1, e, enums, st1, lo));
        lemma_read_pass(fields, i + 1, e, enums, st1, lo);
    }
}

/// The well-formedness of the write section from field index `i` on:
/// alternating `AccessField`/write pairs appended after position `base`.
pub open spec fn write_ops_ok(
    fields: Seq<SpecHirField>,
    i: int,
    e: Endianness,
    enums: Seq<SpecHirEnum>,
    wp: int,
    base: int,
    ops: Seq<SpecLirOp>,
    ctr: int,
    lo: int,
) -> bool {
    &&& (forall|j: int|
        0 <= j < i ==> ((fields[j].field_type matches SpecHirType::Enum(nm) && find_enum_model(
            enums,
            nm,
            0,
        ) is Some) ==> #[trigger] ops[base + 2 * j + 1] == prim_write_op(
            find_enum_model(enums, fields[j].field_type->Enum_0, 0)->0.underlying_type,
            spec_op_dest(ops[base + 2 * j])->0,
            e,
        )))
    &&& ctr >= lo
    &&& (forall|j: int|
        0 <= j < i ==> spec_op_dest(#[trigger] ops[base + 2 * j])->0 >= lo)
    &&& ops.len() == base + 2 * i
    &&& (forall|j: int|
        0 <= j < i ==> (#[trigger] ops[base + 2 * j] matches SpecLirOp::AccessField {
            struct_var,
            field_index,
            ..
        } && struct_var == wp && field_index == j as usize))
    &&& (forall|j: int|
        0 <= j < i ==> (match #[trigger] spec_op_dest(ops[base + 2 * j]) {
            Some(d) => d < ctr,
            None => false,
        }))
    &&& (forall|j1: int, j2: int|
        0 <= j1 < j2 < i ==> spec_op_dest(#[trigger] ops[base + 2 * j1])->0 < spec_op_dest(
            #[trigger] ops[base + 2 * j2],
        )->0)
    &&& (forall|j: int| 0 <= j < i ==> spec_op_dest(#[trigger] ops[base + 2 * j + 1]) is None)
    &&& (forall|j: int|
        0 <= j < i ==> spec_op_src(#[trigger] ops[base + 2 * j + 1]) == Some(
            spec_op_dest(ops[base + 2 * j])->0,
        ))
    &&& (forall|j: int|
        0 <= j < i ==> spec_op_endianness_deep(#[trigger] ops[base + 2 * j], e)
            && spec_op_endianness_deep(ops[base + 2 * j + 1], e))
}

proof fn lemma_write_pass(
    fields: Seq<SpecHirField>,
    i: int,
    e: Endianness,
    enums: Seq<SpecHirEnum>,
    map: Seq<(Seq<char>, int)>,
    wp: int,
    base: int,
    ops: Seq<SpecLirOp>,
    ctr: int,
    lo: int,
)
    requires
        0 <= i <= fields.len(),
        0 <= base,
        write_pass_model(fields, i, e, enums, map, wp, ops, ctr) is Ok,
        write_ops_ok(fields, i, e, enums, wp, base, ops, ctr, lo),
    ensures
        ({
            let p = write_pass_model(fields, i, e, enums, map, wp, ops, ctr)->Ok_0;
            &&& write_ops_ok(fields, fields.len() as int, e, enums, wp, base, p.0, p.1, lo)
            &&& p.1 >= ctr
            &&& p.0.len() == ops.len() + 2 * (fields.len() - i)
            &&& (forall|k: int| 0 <= k < ops.len() ==> #[trigger] p.0[k] == ops[k])
        }),
    decreases fields.len() - i,
{
    if i < fields.len() {
        let f = fields[i];
        let fv = ctr;
        let acc = SpecLirOp::AccessField { dest: fv, struct_var: wp, field_index: i as usize };
        let m = lower_write_model(f.field_type, fv, e, enums, map, ctr + 1);
        let p = m->Ok_0;
        lemma_lower_write_facts(f.field_type, fv, e, enums, map, ctr + 1);
        let ops1 = ops.push(acc).push(p.0);
        assert(ops1[base + 2 * i] == acc);
        assert(ops1[base + 2 * i + 1] == p.0);
        assert forall|k: int| 0 <= k < ops.len() implies #[trigger] ops1[k] == ops[k] by {}
        assert(write_ops_ok(fields, i + 1, e, enums, wp, base, ops1, p.1, lo)) by {
            assert forall|j: int|
                0 <= j < i + 1 implies ((fields[j].field_type matches SpecHirType::Enum(nm)
                && find_enum_model(enums, nm, 0) is Some) ==> #[trigger] ops1[base + 2 * j + 1]
                == prim_write_op(
                find_enum_model(enums, fields[j].field_type->Enum_0, 0)->0.underlying_type,
                spec_op_dest(ops1[base + 2 * j])->0,
                e,
            )) by {
                if j < i {
                    assert(ops1[base + 2 * j + 1] == ops[base + 2 * j + 1]);
                    assert(ops1[base + 2 * j] == ops[base + 2 * j]);
                } else {
                    assert(ops1[base + 2 * j] == acc);
                    assert(ops1[base + 2 * j + 1] == p.0);
                    match f.field_type {
                        SpecHirType::Enum(nm2) => {
                            match find_enum_model(enums, nm2, 0) {
                                Some(ed) => {
                                    reveal_with_fuel(crate::pipeline::lower_write_model, 2);
                                    assert(p.0 == prim_write_op(ed.underlying_type, fv, e));
                                },
                                None => {},
                            }
                        },
                        _ => {},
                    }
                }
            };
            assert forall|j: int|
                0 <= j < i + 1 implies spec_op_dest(#[trigger] ops1[base + 2 * j])->0 >= lo by {
                if j < i {
                    assert(ops1[base + 2 * j] == ops[base + 2 * j]);
                } else {
                    assert(ops1[base + 2 * j] == acc);
                }
            };
            assert forall|j: int|
                0 <= j < i + 1 implies spec_op_src(#[trigger] ops1[base + 2 * j + 1]) == Some(
                spec_op_dest(ops1[base + 2 * j])->0,
            ) by {
                if j < i {
                    assert(ops1[base + 2 * j] == ops[base + 2 * j]);
                    assert(ops1[base + 2 * j + 1] == ops[base + 2 * j + 1]);
                } else {
                    assert(ops1[base + 2 * j] == acc);
                    assert(ops1[base + 2 * j + 1] == p.0);
                }
            };
            assert forall|j: int|
                0 <= j < i + 1 implies (match #[trigger] spec_op_dest(ops1[base + 2 * j]) {
                Some(d) => d < p.1,
                None => false,
            }) by {
                if j < i {
                    assert(ops1[base + 2 * j] == ops[base + 2 * j]);
                } else {
                    assert(ops1[base + 2 * j] == acc);
                }
            };
            assert forall|j1: int, j2: int|
                0 <= j1 < j2 < i + 1 implies spec_op_dest(#[trigger] ops1[base + 2 * j1])->0
                < spec_op_dest(#[trigger] ops1[base + 2 * j2])->0 by {
                if j2 < i {
                    assert(ops1[base + 2 * j1] == ops[base + 2 * j1]);
                    assert(ops1[base + 2 * j2] == ops[base + 2 * j2]);
                } else {
                    if j1 < i {
                        assert(ops1[base + 2 * j1] == ops[base + 2 * j1]);
                    }
                    assert(ops1[base + 2 * j2] == acc);
                }
            };
        }
        lemma_write_pass(fields, i + 1, e, enums, map, wp, base, ops1, p.1, lo);
    }
}

} // verus!
verus! {

/// The shape every lowered type has: one read per field in declaration
/// order, the `CreateStruct` marker listing the field variables in
/// order, an `AccessField`/write pair per field in order, pairwise
/// distinct destinations, endianness as declared, size references
/// resolved to earlier fields, and enum fields lowered to their
/// underlying primitive.  Reads stand only before the marker, the
/// marker is the sole `CreateStruct`, each write serialises exactly the
/// variable its paired `AccessField` filled, and the destinations of
/// the whole list, the nested dummy destinations of array element
/// operations included, strictly increase in order of appearance, so
/// no destination is ever filled twice.
pub open spec fn lowered_type_wf(
    s: crate::hir::SpecHirStruct,
    e: Endianness,
    enums: Seq<SpecHirEnum>,
    lt: SpecLirType,
) -> bool {
    let n = s.fields.len() as int;
    &&& lt.fields.len() == n
    &&& lt.operations.len() == n + 1 + 2 * n
    &&& (forall|k: int| 0 <= k < n ==> #[trigger] lt.fields[k].name == s.fields[k].name)
    &&& (forall|k: int|
        0 <= k < n ==> #[trigger] spec_op_dest(lt.operations[k]) == Some(lt.fields[k].var_id))
    &&& (lt.operations[n] matches SpecLirOp::CreateStruct { dest, struct_name, fields }
        && dest == lt.read_result && struct_name == s.name && fields.len() == n && (forall|
        k: int,
    |
        0 <= k < n ==> #[trigger] fields[k] == lt.fields[k].var_id))
    &&& (forall|j: int|
        0 <= j < n ==> (#[trigger] lt.operations[n + 1 + 2 * j]
            matches SpecLirOp::AccessField { struct_var, field_index, .. } && struct_var
            == lt.write_param && field_index == j as usize))
    &&& (forall|k1: int, k2: int|
        0 <= k1 < k2 < lt.operations.len() && spec_op_dest(#[trigger] lt.operations[k1]) is Some
            && spec_op_dest(#[trigger] lt.operations[k2]) is Some ==> spec_op_dest(
            lt.operations[k1],
        ) != spec_op_dest(lt.operations[k2]))
    &&& (forall|k: int|
        0 <= k < n ==> (#[trigger] lt.operations[k] matches SpecLirOp::ReadDynamicArray {
            size_var,
            ..
        } ==> exists|j: int| 0 <= j < k && #[trigger] lt.fields[j].var_id == size_var))
    &&& (forall|k: int|
        0 <= k < n ==> ((s.fields[k].field_type matches SpecHirType::Enum(nm)
            && find_enum_model(enums, nm, 0) is Some) ==> #[trigger] lt.operations[k]
            == prim_read_op(
            find_enum_model(enums, s.fields[k].field_type->Enum_0, 0)->0.underlying_type,
            lt.fields[k].var_id,
            e,
        )))
    &&& (forall|k: int|
        0 <= k < n ==> ((s.fields[k].field_type matches SpecHirType::Enum(nm)
            && find_enum_model(enums, nm, 0) is Some) ==> #[trigger] lt.operations[n + 1 + 2 * k
            + 1] == prim_write_op(
            find_enum_model(enums, s.fields[k].field_type->Enum_0, 0)->0.underlying_type,
            spec_op_dest(lt.operations[n + 1 + 2 * k])->0,
            e,
        )))
    &&& (forall|k: int|
        0 <= k < lt.operations.len() ==> spec_op_endianness_deep(
            #[trigger] lt.operations[k],
            e,
        ))
    &&& (forall|k: int| 0 <= k < n ==> spec_op_is_read(#[trigger] lt.operations[k]))
    &&& (forall|k: int|
        n < k < lt.operations.len() ==> !spec_op_is_read(#[trigger] lt.operations[k]))
    &&& (forall|k: int|
        0 <= k < lt.operations.len() && k != n ==> !(#[trigger] lt.operations[k]
            matches SpecLirOp::CreateStruct { .. }))
    &&& (forall|j: int|
        0 <= j < n ==> spec_op_src(#[trigger] lt.operations[n + 1 + 2 * j + 1]) == Some(
            spec_op_dest(lt.operations[n + 1 + 2 * j])->0,
        ))
    &&& (forall|k1: int, k2: int, a: int, b: int|
        0 <= k1 <= k2 < lt.operations.len() && 0 <= a < deep_dests(lt.operations[k1]).len() && 0
            <= b < deep_dests(lt.operations[k2]).len() && (k1 < k2 || a < b)
            ==> #[trigger] deep_dests(lt.operations[k1])[a] < #[trigger] deep_dests(
            lt.operations[k2],
        )[b])
}

proof fn lemma_lower_struct_wf(
    s: crate::hir::SpecHirStruct,
    e: Endianness,
    enums: Seq<SpecHirEnum>,
    ctr: int,
)
    requires
        lower_struct_model(s, e, enums, ctr) is Ok,
    ensures
        lowered_type_wf(s, e, enums, lower_struct_model(s, e, enums, ctr)->Ok_0.0),
        lower_struct_model(s, e, enums, ctr)->Ok_0.1 >= ctr,
        ({
            let lt = lower_struct_model(s, e, enums, ctr)->Ok_0.0;
            let c2 = lower_struct_model(s, e, enums, ctr)->Ok_0.1;
            forall|k: int|
                0 <= k < lt.operations.len() && spec_op_dest(#[trigger] lt.operations[k])
                    is Some ==> ctr <= spec_op_dest(lt.operations[k])->0 < c2
        }),
        ({
            let lt = lower_struct_model(s, e, enums, ctr)->Ok_0.0;
            let c2 = lower_struct_model(s, e, enums, ctr)->Ok_0.1;
            forall|k: int, a: int|
                0 <= k < lt.operations.len() && 0 <= a < deep_dests(lt.operations[k]).len()
                    ==> ctr <= #[trigger] deep_dests(lt.operations[k])[a] < c2
        }),
{
    let st0 = SpecReadState {
        ops: Seq::empty(),
        lfields: Seq::empty(),
        fvars: Seq::empty(),
        map: Seq::empty(),
        ctr,
    };
    assert(st0.map =~= map_of(st0.lfields));
    assert(read_state_ok(s.fields, 0, e, enums, st0, ctr));
    let st = read_pass_model(s.fields, 0, e, enums, st0)->Ok_0;
    lemma_read_pass(s.fields, 0, e, enums, st0, ctr);
    let n = s.fields.len() as int;
    let result_var = st.ctr;
    let create = SpecLirOp::CreateStruct {
        dest: result_var,
        struct_name: s.name,
        fields: st.fvars,
    };
    let ops1 = st.ops.push(create);
    let wp = st.ctr + 1;
    assert(write_ops_ok(s.fields, 0, e, enums, wp, n + 1, ops1, st.ctr + 2, st.ctr + 2));
    let p = write_pass_model(s.fields, 0, e, enums, st.map, wp, ops1, st.ctr + 2)->Ok_0;
    lemma_write_pass(s.fields, 0, e, enums, st.map, wp, n + 1, ops1, st.ctr + 2, st.ctr + 2);
    let lt = lower_struct_model(s, e, enums, ctr)->Ok_0.0;
    assert(lt.operations == p.0);
    assert(lt.fields == st.lfields);
    assert forall|k: int|
        0 <= k < n implies #[trigger] spec_op_dest(lt.operations[k]) == Some(
        lt.fields[k].var_id,
    ) by {
        assert(p.0[k] == ops1[k]);
        assert(ops1[k] == st.ops[k]);
    };
    assert(lt.operations[n] == create) by {
        assert(p.0[n] == ops1[n]);
    };
    assert forall|k: int| 0 <= k < n implies #[trigger] lt.fields[k].name == s.fields[k].name
        by {};
    assert forall|k: int|
        0 <= k < n implies (#[trigger] lt.operations[k]
            matches SpecLirOp::ReadDynamicArray { size_var, .. } ==> exists|j: int|
            0 <= j < k && #[trigger] lt.fields[j].var_id == size_var) by {
        assert(lt.operations[k] == st.ops[k]);
    };
    assert forall|k: int|
        0 <= k < n implies ((s.fields[k].field_type matches SpecHirType::Enum(nm)
            && find_enum_model(enums, nm, 0) is Some) ==> #[trigger] lt.operations[k]
            == prim_read_op(
            find_enum_model(enums, s.fields[k].field_type->Enum_0, 0)->0.underlying_type,
            lt.fields[k].var_id,
            e,
        )) by {
        assert(lt.operations[k] == st.ops[k]);
    };
    assert forall|k: int|
        0 <= k < n implies ((s.fields[k].field_type matches SpecHirType::Enum(nm)
        && find_enum_model(enums, nm, 0) is Some) ==> #[trigger] lt.operations[n + 1 + 2 * k
        + 1] == prim_write_op(
        find_enum_model(enums, s.fields[k].field_type->Enum_0, 0)->0.underlying_type,
        spec_op_dest(lt.operations[n + 1 + 2 * k])->0,
        e,
    )) by {
        assert(lt.operations[n + 1 + 2 * k + 1] == p.0[n + 1 + 2 * k + 1]);
        assert(lt.operations[n + 1 + 2 * k] == p.0[n + 1 + 2 * k]);
    };
    assert forall|k: int|
        0 <= k < lt.operations.len() implies spec_op_endianness_deep(
        #[trigger] lt.operations[k],
        e,
    ) by {
        if k < n {
            assert(lt.operations[k] == st.ops[k]);
        } else if k == n {
            assert(lt.operations[k] == create);
        } else {
            let d = k - n - 1;
            let j = d / 2;
            if d % 2 == 0 {
                assert(k == n + 1 + 2 * j);
                assert(lt.operations[n + 1 + 2 * j] matches SpecLirOp::AccessField { .. });
            } else {
                assert(k == n + 1 + 2 * j + 1);
                assert(spec_op_endianness_deep(lt.operations[n + 1 + 2 * j + 1], e));
            }
        }
    };
    assert forall|k: int| 0 <= k < n implies spec_op_is_read(#[trigger] lt.operations[k]) by {
        assert(lt.operations[k] == st.ops[k]);
    };
    assert forall|j: int|
        0 <= j < n implies spec_op_src(#[trigger] lt.operations[n + 1 + 2 * j + 1]) == Some(
        spec_op_dest(lt.operations[n + 1 + 2 * j])->0,
    ) by {
        assert(lt.operations[n + 1 + 2 * j + 1] == p.0[n + 1 + 2 * j + 1]);
        assert(lt.operations[n + 1 + 2 * j] == p.0[n + 1 + 2 * j]);
    };
    assert forall|k: int|
        n < k < lt.operations.len() implies !spec_op_is_read(#[trigger] lt.operations[k]) by {
        let d = k - n - 1;
        let j = d / 2;
        if d % 2 == 0 {
            assert(k == n + 1 + 2 * j);
            assert(lt.operations[n + 1 + 2 * j] matches SpecLirOp::AccessField { .. });
        } else {
            assert(k == n + 1 + 2 * j + 1);
            assert(spec_op_src(lt.operations[n + 1 + 2 * j + 1]) == Some(
                spec_op_dest(lt.operations[n + 1 + 2 * j])->0,
            ));
        }
    };
    assert forall|k: int|
        0 <= k < lt.operations.len() && k != n implies !(#[trigger] lt.operations[k]
            matches SpecLirOp::CreateStruct { .. }) by {
        if k < n {
            assert(spec_op_is_read(lt.operations[k]));
        } else {
            assert(!spec_op_is_read(lt.operations[k]));
            let d = k - n - 1;
            let j = d / 2;
            if d % 2 == 0 {
                assert(k == n + 1 + 2 * j);
                assert(lt.operations[n + 1 + 2 * j] matches SpecLirOp::AccessField { .. });
            } else {
                assert(k == n + 1 + 2 * j + 1);
                assert(spec_op_src(lt.operations[n + 1 + 2 * j + 1]) == Some(
                    spec_op_dest(lt.operations[n + 1 + 2 * j])->0,
                ));
            }
        }
    };
    assert(deep_dests(create).len() == 1 && deep_dests(create)[0] == result_var);
    assert forall|j: int|
        0 <= j < n implies #[trigger] deep_dests(lt.operations[n + 1 + 2 * j]).len() == 1
        && deep_dests(lt.operations[n + 1 + 2 * j])[0] == spec_op_dest(
        lt.operations[n + 1 + 2 * j],
    )->0 && st.ctr + 2 <= deep_dests(lt.operations[n + 1 + 2 * j])[0] < p.1 by {
        assert(lt.operations[n + 1 + 2 * j] == p.0[n + 1 + 2 * j]);
        assert(p.0[n + 1 + 2 * j] matches SpecLirOp::AccessField { .. });
        assert(spec_op_dest(#[trigger] p.0[n + 1 + 2 * j])->0 >= st.ctr + 2);
        assert((match spec_op_dest(p.0[n + 1 + 2 * j]) {
            Some(dd) => dd < p.1,
            None => false,
        }));
    };
    assert forall|j: int|
        0 <= j < n implies #[trigger] deep_dests(lt.operations[n + 1 + 2 * j + 1]).len() == 0 by {
        assert(lt.operations[n + 1 + 2 * j + 1] == p.0[n + 1 + 2 * j + 1]);
        assert(spec_op_dest(p.0[n + 1 + 2 * j + 1]) is None);
        assert(spec_op_src(p.0[n + 1 + 2 * j + 1]) == Some(spec_op_dest(p.0[n + 1 + 2 * j])->0));
    };
    assert forall|k1: int, k2: int, a: int, b: int|
        0 <= k1 <= k2 < lt.operations.len() && 0 <= a < deep_dests(lt.operations[k1]).len() && 0
        <= b < deep_dests(lt.operations[k2]).len() && (k1 < k2 || a < b)
        implies #[trigger] deep_dests(lt.operations[k1])[a] < #[trigger] deep_dests(
        lt.operations[k2],
    )[b] by {
        if k1 == k2 {
            if k1 < n {
                assert(lt.operations[k1] == st.ops[k1]);
                assert(deep_dests(st.ops[k1])[a] < deep_dests(st.ops[k1])[b]);
            } else if k1 == n {
                assert(lt.operations[k1] == create);
            } else {
                let d1 = k1 - n - 1;
                let j1 = d1 / 2;
                if d1 % 2 == 0 {
                    assert(k1 == n + 1 + 2 * j1);
                    assert(deep_dests(lt.operations[n + 1 + 2 * j1]).len() == 1);
                } else {
                    assert(k1 == n + 1 + 2 * j1 + 1);
                    assert(deep_dests(lt.operations[n + 1 + 2 * j1 + 1]).len() == 0);
                }
            }
        } else {
            if k2 < n {
                assert(lt.operations[k1] == st.ops[k1]);
                assert(lt.operations[k2] == st.ops[k2]);
                assert(deep_dests(st.ops[k1])[a] < deep_dests(st.ops[k2])[b]);
            } else {
                if k1 < n {
                    assert(lt.operations[k1] == st.ops[k1]);
                    assert(ctr <= deep_dests(st.ops[k1])[a] < st.ctr);
                } else if k1 == n {
                    assert(lt.operations[k1] == create);
                }
                if k2 == n {
                    assert(lt.operations[k2] == create);
                } else {
                    let d2 = k2 - n - 1;
                    let j2 = d2 / 2;
                    if d2 % 2 == 1 {
                        assert(k2 == n + 1 + 2 * j2 + 1);
                        assert(deep_dests(lt.operations[n + 1 + 2 * j2 + 1]).len() == 0);
                    } else {
                        assert(k2 == n + 1 + 2 * j2);
                        assert(st.ctr + 2 <= deep_dests(lt.operations[n + 1 + 2 * j2])[0]);
                        if k1 > n {
                            let d1 = k1 - n - 1;
                            let j1 = d1 / 2;
                            if d1 % 2 == 1 {
                                assert(k1 == n + 1 + 2 * j1 + 1);
                                assert(deep_dests(lt.operations[n + 1 + 2 * j1 + 1]).len() == 0);
                            } else {
                                assert(k1 == n + 1 + 2 * j1);
                                assert(j1 < j2);
                                assert(spec_op_dest(#[trigger] p.0[n + 1 + 2 * j1])->0
                                    < spec_op_dest(#[trigger] p.0[n + 1 + 2 * j2])->0);
                                assert(deep_dests(lt.operations[n + 1 + 2 * j1])[0]
                                    == spec_op_dest(lt.operations[n + 1 + 2 * j1])->0);
                            }
                        }
                    }
                }
            }
        }
    };
    assert forall|k1: int, k2: int|
        0 <= k1 < k2 < lt.operations.len() && spec_op_dest(#[trigger] lt.operations[k1]) is Some
            && spec_op_dest(#[trigger] lt.operations[k2]) is Some implies spec_op_dest(
        lt.operations[k1],
    ) != spec_op_dest(lt.operations[k2]) by {
        if k1 < n {
            assert(lt.operations[k1] == st.ops[k1]);
            assert(spec_op_dest(lt.operations[k1])->0 == st.lfields[k1].var_id);
            assert(st.lfields[k1].var_id < st.ctr);
        } else if k1 == n {
            assert(lt.operations[k1] == create);
            assert(spec_op_dest(lt.operations[k1])->0 == result_var);
        } else {
            let d1 = k1 - n - 1;
            let j1 = d1 / 2;
            if d1 % 2 == 1 {
                assert(k1 == n + 1 + 2 * j1 + 1);
                assert(spec_op_dest(lt.operations[n + 1 + 2 * j1 + 1]) is None);
                assert(false);
            } else {
                assert(k1 == n + 1 + 2 * j1);
                assert(spec_op_dest(#[trigger] p.0[n + 1 + 2 * j1])->0 >= st.ctr + 2);
            }
        }
        if k2 < n {
            assert(lt.operations[k2] == st.ops[k2]);
            assert(spec_op_dest(lt.operations[k2])->0 == st.lfields[k2].var_id);
            assert(st.lfields[k2].var_id < st.ctr);
        } else if k2 == n {
            assert(lt.operations[k2] == create);
            assert(spec_op_dest(lt.operations[k2])->0 == result_var);
        } else {
            let d2 = k2 - n - 1;
            let j2 = d2 / 2;
            if d2 % 2 == 1 {
                assert(k2 == n + 1 + 2 * j2 + 1);
                assert(spec_op_dest(lt.operations[n + 1 + 2 * j2 + 1]) is None);
                assert(false);
            } else {
                assert(k2 == n + 1 + 2 * j2);
                assert(spec_op_dest(#[trigger] p.0[n + 1 + 2 * j2])->0 >= st.ctr + 2);
            }
        }
        if k1 < n && k2 < n {
            assert(st.lfields[k1].var_id < st.lfields[k2].var_id);
        }
        if k1 > n && k2 > n {
            let j1 = (k1 - n - 1) / 2;
            let j2 = (k2 - n - 1) / 2;
            assert(j1 < j2);
            assert(spec_op_dest(p.0[n + 1 + 2 * j1])->0 < spec_op_dest(p.0[n + 1 + 2 * j2])->0);
        }
        assert(spec_op_dest(lt.operations[k1])->0 < spec_op_dest(lt.operations[k2])->0);
    };
    assert forall|k: int|
        0 <= k < lt.operations.len() && spec_op_dest(#[trigger] lt.operations[k]) is Some
        implies ctr <= spec_op_dest(lt.operations[k])->0 < lower_struct_model(
        s,
        e,
        enums,
        ctr,
    )->Ok_0.1 by {
        if k < n {
            assert(lt.operations[k] == st.ops[k]);
            assert(spec_op_dest(lt.operations[k])->0 == st.lfields[k].var_id);
            assert(ctr <= st.lfields[k].var_id < st.ctr);
        } else if k == n {
            assert(lt.operations[k] == create);
            assert(spec_op_dest(lt.operations[k])->0 == result_var);
        } else {
            let d = k - n - 1;
            let j = d / 2;
            if d % 2 == 1 {
                assert(k == n + 1 + 2 * j + 1);
                assert(spec_op_dest(lt.operations[n + 1 + 2 * j + 1]) is None);
                assert(false);
            } else {
                assert(k == n + 1 + 2 * j);
                assert(spec_op_dest(#[trigger] p.0[n + 1 + 2 * j])->0 >= st.ctr + 2);
                assert((match spec_op_dest(p.0[n + 1 + 2 * j]) {
                    Some(dd) => dd < p.1,
                    None => false,
                }));
            }
        }
    };
    assert forall|k: int, a: int|
        0 <= k < lt.operations.len() && 0 <= a < deep_dests(lt.operations[k]).len() implies ctr
        <= #[trigger] deep_dests(lt.operations[k])[a] < lower_struct_model(
        s,
        e,
        enums,
        ctr,
    )->Ok_0.1 by {
        if k < n {
            assert(lt.operations[k] == st.ops[k]);
            assert(ctr <= deep_dests(st.ops[k])[a] < st.ctr);
        } else if k == n {
            assert(lt.operations[k] == create);
        } else {
            let d = k - n - 1;
            let j = d / 2;
            if d % 2 == 0 {
                assert(k == n + 1 + 2 * j);
                assert(st.ctr + 2 <= deep_dests(lt.operations[n + 1 + 2 * j])[0] < p.1);
            } else {
                assert(k == n + 1 + 2 * j + 1);
                assert(deep_dests(lt.operations[n + 1 + 2 * j + 1]).len() == 0);
            }
        }
    };
}

} // verus!
verus! {

/// Every destination filled by any operation of any type in the list is
/// below the bound.
pub open spec fn dests_below(acc: Seq<SpecLirType>, bound: int) -> bool {
    forall|k: int, j: int|
        0 <= k < acc.len() && 0 <= j < acc[k].operations.len() && spec_op_dest(
            #[trigger] acc[k].operations[j],
        ) is Some ==> spec_op_dest(acc[k].operations[j])->0 < bound
}

/// No two operations of two distinct types fill the same destination.
pub open spec fn cross_dests_distinct(acc: Seq<SpecLirType>) -> bool {
    forall|k1: int, j1: int, k2: int, j2: int|
        0 <= k1 < acc.len() && 0 <= j1 < acc[k1].operations.len() && 0 <= k2 < acc.len() && 0
            <= j2 < acc[k2].operations.len() && k1 != k2 && spec_op_dest(
            #[trigger] acc[k1].operations[j1],
        ) is Some && spec_op_dest(#[trigger] acc[k2].operations[j2]) is Some ==> spec_op_dest(
            acc[k1].operations[j1],
        ) != spec_op_dest(acc[k2].operations[j2])
}

/// Every destination filled by any operation tree of any type in the
/// list, the nested dummy destinations of array element operations
/// included, is below the bound.
pub open spec fn deep_dests_below(acc: Seq<SpecLirType>, bound: int) -> bool {
    forall|k: int, j: int, a: int|
        0 <= k < acc.len() && 0 <= j < acc[k].operations.len() && 0 <= a < deep_dests(
            acc[k].operations[j],
        ).len() ==> #[trigger] deep_dests(acc[k].operations[j])[a] < bound
}

/// No two operation trees of two distinct types fill the same
/// destination, nested dummy destinations included.
pub open spec fn deep_cross_distinct(acc: Seq<SpecLirType>) -> bool {
    forall|k1: int, j1: int, a1: int, k2: int, j2: int, a2: int|
        0 <= k1 < acc.len() && 0 <= j1 < acc[k1].operations.len() && 0 <= a1 < deep_dests(
            acc[k1].operations[j1],
        ).len() && 0 <= k2 < acc.len() && 0 <= j2 < acc[k2].operations.len() && 0 <= a2
            < deep_dests(acc[k2].operations[j2]).len() && k1 != k2 ==> #[trigger] deep_dests(
            acc[k1].operations[j1],
        )[a1] != #[trigger] deep_dests(acc[k2].operations[j2])[a2]
}

proof fn lemma_lower_types(
    types: Seq<SpecHirTypeDef>,
    i: int,
    e: Endianness,
    enums: Seq<SpecHirEnum>,
    acc: Seq<SpecLirType>,
    ctr: int,
)
    requires
        0 <= i <= types.len(),
        acc.len() == i,
        lower_types_model(types, i, e, enums, acc, ctr) is Ok,
        forall|k: int|
            0 <= k < i ==> lowered_type_wf(
                (#[trigger] types[k])->Struct_0,
                e,
                enums,
                acc[k],
            ),
        dests_below(acc, ctr),
        cross_dests_distinct(acc),
        deep_dests_below(acc, ctr),
        deep_cross_distinct(acc),
    ensures
        ({
            let p = lower_types_model(types, i, e, enums, acc, ctr)->Ok_0;
            &&& p.0.len() == types.len()
            &&& forall|k: int|
                0 <= k < types.len() ==> lowered_type_wf(
                    (#[trigger] types[k])->Struct_0,
                    e,
                    enums,
                    p.0[k],
                )
            &&& dests_below(p.0, p.1)
            &&& cross_dests_distinct(p.0)
            &&& deep_dests_below(p.0, p.1)
            &&& deep_cross_distinct(p.0)
        }),
    decreases types.len() - i,
{
    if i < types.len() {
        match types[i] {
            SpecHirTypeDef::Struct(sd) => {
                let m = lower_struct_model(sd, e, enums, ctr);
                lemma_lower_struct_wf(sd, e, enums, ctr);
                let lt = m->Ok_0.0;
                let c2 = m->Ok_0.1;
                let acc1 = acc.push(lt);
                assert forall|k: int|
                    0 <= k < i + 1 implies lowered_type_wf(
                    (#[trigger] types[k])->Struct_0,
                    e,
                    enums,
                    acc1[k],
                ) by {
                    if k < i {
                        assert(acc1[k] == acc[k]);
                    } else {
                        assert(acc1[k] == lt);
                    }
                };
                assert(dests_below(acc1, c2)) by {
                    assert forall|k: int, j: int|
                        0 <= k < acc1.len() && 0 <= j < acc1[k].operations.len() && spec_op_dest(
                            #[trigger] acc1[k].operations[j],
                        ) is Some implies spec_op_dest(acc1[k].operations[j])->0 < c2 by {
                        if k < i {
                            assert(acc1[k] == acc[k]);
                        } else {
                            assert(acc1[k] == lt);
                        }
                    };
                };
                assert(cross_dests_distinct(acc1)) by {
                    assert forall|k1: int, j1: int, k2: int, j2: int|
                        0 <= k1 < acc1.len() && 0 <= j1 < acc1[k1].operations.len() && 0 <= k2
                            < acc1.len() && 0 <= j2 < acc1[k2].operations.len() && k1 != k2
                            && spec_op_dest(#[trigger] acc1[k1].operations[j1]) is Some
                            && spec_op_dest(#[trigger] acc1[k2].operations[j2]) is Some
                        implies spec_op_dest(acc1[k1].operations[j1]) != spec_op_dest(
                        acc1[k2].operations[j2],
                    ) by {
                        if k1 < i {
                            assert(acc1[k1] == acc[k1]);
                        } else {
                            assert(acc1[k1] == lt);
                        }
                        if k2 < i {
                            assert(acc1[k2] == acc[k2]);
                        } else {
                            assert(acc1[k2] == lt);
                        }
                    };
                };
                assert(deep_dests_below(acc1, c2)) by {
                    assert forall|k: int, j: int, a: int|
                        0 <= k < acc1.len() && 0 <= j < acc1[k].operations.len() && 0 <= a
                            < deep_dests(acc1[k].operations[j]).len() implies #[trigger] deep_dests(
                        acc1[k].operations[j],
                    )[a] < c2 by {
                        if k < i {
                            assert(acc1[k] == acc[k]);
                            assert(deep_dests(acc[k].operations[j])[a] < ctr);
                        } else {
                            assert(acc1[k] == lt);
                            assert(ctr <= deep_dests(lt.operations[j])[a] < c2);
                        }
                    };
                };
                assert(deep_cross_distinct(acc1)) by {
                    assert forall|k1: int, j1: int, a1: int, k2: int, j2: int, a2: int|
                        0 <= k1 < acc1.len() && 0 <= j1 < acc1[k1].operations.len() && 0 <= a1
                            < deep_dests(acc1[k1].operations[j1]).len() && 0 <= k2 < acc1.len()
                            && 0 <= j2 < acc1[k2].operations.len() && 0 <= a2 < deep_dests(
                            acc1[k2].operations[j2],
                        ).len() && k1 != k2 implies #[trigger] deep_dests(
                        acc1[k1].operations[j1],
                    )[a1] != #[trigger] deep_dests(acc1[k2].operations[j2])[a2] by {
                        if k1 < i {
                            assert(acc1[k1] == acc[k1]);
                            assert(deep_dests(acc[k1].operations[j1])[a1] < ctr);
                        } else {
                            assert(acc1[k1] == lt);
                            assert(ctr <= deep_dests(lt.operations[j1])[a1] < c2);
                        }
                        if k2 < i {
                            assert(acc1[k2] == acc[k2]);
                            assert(deep_dests(acc[k2].operations[j2])[a2] < ctr);
                        } else {
                            assert(acc1[k2] == lt);
                            assert(ctr <= deep_dests(lt.operations[j2])[a2] < c2);
                        }
                    };
                };
                lemma_lower_types(types, i + 1, e, enums, acc1, c2);
            },
        }
    }
}

/// Every type of a successfully lowered format has the shape of
/// [`lowered_type_wf`]: the format-level summary all the named
/// guarantees below draw on.
pub proof fn lemma_lowered_format_wf(h: SpecHirFormat, ctr: int)
    requires
        lower_model(h, ctr) is Ok,
    ensures
        ({
            let lm = lower_model(h, ctr)->Ok_0.0;
            &&& lm.types.len() == h.types.len()
            &&& lm.endianness == h.endianness
            &&& lm.enums == h.enums
            &&& forall|k: int|
                0 <= k < h.types.len() ==> lowered_type_wf(
                    (#[trigger] h.types[k])->Struct_0,
                    h.endianness,
                    h.enums,
                    lm.types[k],
                )
            &&& cross_dests_distinct(lm.types)
            &&& deep_cross_distinct(lm.types)
        }),
{
    assert(dests_below(Seq::empty(), ctr));
    assert(cross_dests_distinct(Seq::empty()));
    assert(deep_dests_below(Seq::empty(), ctr));
    assert(deep_cross_distinct(Seq::empty()));
    lemma_lower_types(h.types, 0, h.endianness, h.enums, Seq::empty(), ctr);
}

/// Every endianness annotation in the operations of a lowered format —
/// nested element operations included — is the format's declared
/// endianness.
pub proof fn lemma_endianness_propagation(h: SpecHirFormat, ctr: int)
    requires
        lower_model(h, ctr) is Ok,
    ensures
        ({
            let lm = lower_model(h, ctr)->Ok_0.0;
            forall|k: int, j: int|
                0 <= k < lm.types.len() && 0 <= j < lm.types[k].operations.len()
                    ==> spec_op_endianness_deep(#[trigger] lm.types[k].operations[j],
                    h.endianness)
        }),
{
    lemma_lowered_format_wf(h, ctr);
    let lm = lower_model(h, ctr)->Ok_0.0;
    assert forall|k: int, j: int|
        0 <= k < lm.types.len() && 0 <= j < lm.types[k].operations.len()
        implies spec_op_endianness_deep(#[trigger] lm.types[k].operations[j], h.endianness) by {
        assert(lowered_type_wf((h.types[k])->Struct_0, h.endianness, h.enums, lm.types[k]));
    };
}

/// Within every lowered type, the read operations before `CreateStruct`
/// target the fields in declaration order, `CreateStruct` lists the
/// field variables in that order, and the `AccessField` indices of the
/// write section count the fields in that order.  Only read operations
/// stand before the marker and none after it, the marker is the sole
/// `CreateStruct` of the list, and each write operation serialises
/// exactly the variable its paired `AccessField` filled.
pub proof fn lemma_field_order_preserved(h: SpecHirFormat, ctr: int)
    requires
        lower_model(h, ctr) is Ok,
    ensures
        ({
            let lm = lower_model(h, ctr)->Ok_0.0;
            forall|k: int|
                0 <= k < lm.types.len() ==> {
                    let lt = #[trigger] lm.types[k];
                    let n = lt.fields.len() as int;
                    &&& lt.operations.len() == n + 1 + 2 * n
                    &&& (forall|q: int|
                        0 <= q < n ==> #[trigger] spec_op_dest(lt.operations[q]) == Some(
                            lt.fields[q].var_id,
                        ))
                    &&& (lt.operations[n] matches SpecLirOp::CreateStruct { fields, .. }
                        && fields.len() == n && (forall|q: int|
                        0 <= q < n ==> #[trigger] fields[q] == lt.fields[q].var_id))
                    &&& (forall|q: int|
                        0 <= q < n ==> (#[trigger] lt.operations[n + 1 + 2 * q]
                            matches SpecLirOp::AccessField { field_index, .. } && field_index
                            == q as usize))
                    &&& (forall|q: int| 0 <= q < n ==> spec_op_is_read(#[trigger] lt.operations[q]))
                    &&& (forall|q: int|
                        n < q < lt.operations.len() ==> !spec_op_is_read(
                            #[trigger] lt.operations[q],
                        ))
                    &&& (forall|q: int|
                        0 <= q < lt.operations.len() && q != n ==> !(#[trigger] lt.operations[q]
                            matches SpecLirOp::CreateStruct { .. }))
                    &&& (forall|q: int|
                        0 <= q < n ==> spec_op_src(#[trigger] lt.operations[n + 1 + 2 * q + 1])
                            == Some(spec_op_dest(lt.operations[n + 1 + 2 * q])->0))
                }
        }),
{
    lemma_lowered_format_wf(h, ctr);
    let lm = lower_model(h, ctr)->Ok_0.0;
    assert forall|k: int| 0 <= k < lm.types.len() implies {
        let lt = #[trigger] lm.types[k];
        let n = lt.fields.len() as int;
        &&& lt.operations.len() == n + 1 + 2 * n
        &&& (forall|q: int|
            0 <= q < n ==> #[trigger] spec_op_dest(lt.operations[q]) == Some(
                lt.fields[q].var_id,
            ))
        &&& (lt.operations[n] matches SpecLirOp::CreateStruct { fields, .. } && fields.len() == n
            && (forall|q: int| 0 <= q < n ==> #[trigger] fields[q] == lt.fields[q].var_id))
        &&& (forall|q: int|
            0 <= q < n ==> (#[trigger] lt.operations[n + 1 + 2 * q]
                matches SpecLirOp::AccessField { field_index, .. } && field_index == q as usize))
        &&& (forall|q: int| 0 <= q < n ==> spec_op_is_read(#[trigger] lt.operations[q]))
        &&& (forall|q: int|
            n < q < lt.operations.len() ==> !spec_op_is_read(#[trigger] lt.operations[q]))
        &&& (forall|q: int|
            0 <= q < lt.operations.len() && q != n ==> !(#[trigger] lt.operations[q]
                matches SpecLirOp::CreateStruct { .. }))
        &&& (forall|q: int|
            0 <= q < n ==> spec_op_src(#[trigger] lt.operations[n + 1 + 2 * q + 1]) == Some(
                spec_op_dest(lt.operations[n + 1 + 2 * q])->0,
            ))
    } by {
        assert(lowered_type_wf((h.types[k])->Struct_0, h.endianness, h.enums, lm.types[k]));
    };
}

/// No two operations anywhere in a lowered format fill the same
/// destination variable — the nested dummy destinations of array
/// element operations included: identifiers come from one monotone
/// counter and are globally unique within the format.
pub proof fn lemma_variable_uniqueness(h: SpecHirFormat, ctr: int)
    requires
        lower_model(h, ctr) is Ok,
    ensures
        ({
            let lm = lower_model(h, ctr)->Ok_0.0;
            forall|k1: int, j1: int, k2: int, j2: int|
                0 <= k1 < lm.types.len() && 0 <= j1 < lm.types[k1].operations.len() && 0 <= k2
                    < lm.types.len() && 0 <= j2 < lm.types[k2].operations.len() && (k1 != k2 || j1
                    != j2) && spec_op_dest(#[trigger] lm.types[k1].operations[j1]) is Some
                    && spec_op_dest(#[trigger] lm.types[k2].operations[j2]) is Some
                    ==> spec_op_dest(lm.types[k1].operations[j1]) != spec_op_dest(
                    lm.types[k2].operations[j2],
                )
        }),
        ({
            let lm = lower_model(h, ctr)->Ok_0.0;
            forall|k1: int, j1: int, a1: int, k2: int, j2: int, a2: int|
                0 <= k1 < lm.types.len() && 0 <= j1 < lm.types[k1].operations.len() && 0 <= a1
                    < deep_dests(lm.types[k1].operations[j1]).len() && 0 <= k2 < lm.types.len()
                    && 0 <= j2 < lm.types[k2].operations.len() && 0 <= a2 < deep_dests(
                    lm.types[k2].operations[j2],
                ).len() && (k1 != k2 || j1 != j2 || a1 != a2) ==> #[trigger] deep_dests(
                    lm.types[k1].operations[j1],
                )[a1] != #[trigger] deep_dests(lm.types[k2].operations[j2])[a2]
        }),
{
    lemma_lowered_format_wf(h, ctr);
    let lm = lower_model(h, ctr)->Ok_0.0;
    assert forall|k1: int, j1: int, k2: int, j2: int|
        0 <= k1 < lm.types.len() && 0 <= j1 < lm.types[k1].operations.len() && 0 <= k2
            < lm.types.len() && 0 <= j2 < lm.types[k2].operations.len() && (k1 != k2 || j1 != j2)
            && spec_op_dest(#[trigger] lm.types[k1].operations[j1]) is Some && spec_op_dest(
            #[trigger] lm.types[k2].operations[j2],
        ) is Some implies spec_op_dest(lm.types[k1].operations[j1]) != spec_op_dest(
        lm.types[k2].operations[j2],
    ) by {
        if k1 == k2 {
            assert(lowered_type_wf(
                (h.types[k1])->Struct_0,
                h.endianness,
                h.enums,
                lm.types[k1],
            ));
            if j1 < j2 {
                assert(spec_op_dest(lm.types[k1].operations[j1]) != spec_op_dest(
                    lm.types[k1].operations[j2],
                ));
            } else {
                assert(spec_op_dest(lm.types[k1].operations[j2]) != spec_op_dest(
                    lm.types[k1].operations[j1],
                ));
            }
        }
    };
    assert forall|k1: int, j1: int, a1: int, k2: int, j2: int, a2: int|
        0 <= k1 < lm.types.len() && 0 <= j1 < lm.types[k1].operations.len() && 0 <= a1
            < deep_dests(lm.types[k1].operations[j1]).len() && 0 <= k2 < lm.types.len() && 0 <= j2
            < lm.types[k2].operations.len() && 0 <= a2 < deep_dests(
            lm.types[k2].operations[j2],
        ).len() && (k1 != k2 || j1 != j2 || a1 != a2) implies #[trigger] deep_dests(
        lm.types[k1].operations[j1],
    )[a1] != #[trigger] deep_dests(lm.types[k2].operations[j2])[a2] by {
        if k1 == k2 {
            assert(lowered_type_wf(
                (h.types[k1])->Struct_0,
                h.endianness,
                h.enums,
                lm.types[k1],
            ));
            if j1 < j2 || (j1 == j2 && a1 < a2) {
                assert(deep_dests(lm.types[k1].operations[j1])[a1] < deep_dests(
                    lm.types[k1].operations[j2],
                )[a2]);
            } else {
                assert(deep_dests(lm.types[k1].operations[j2])[a2] < deep_dests(
                    lm.types[k1].operations[j1],
                )[a1]);
            }
        }
    };
}

/// The size variable of every dynamic-array read names the variable of a
/// field declared strictly earlier in the same struct.
pub proof fn lemma_size_reference_resolution(h: SpecHirFormat, ctr: int)
    requires
        lower_model(h, ctr) is Ok,
    ensures
        ({
            let lm = lower_model(h, ctr)->Ok_0.0;
            forall|k: int, q: int|
                0 <= k < lm.types.len() && 0 <= q < lm.types[k].fields.len()
                    ==> (#[trigger] lm.types[k].operations[q]
                    matches SpecLirOp::ReadDynamicArray { size_var, .. } ==> exists|j: int|
                    0 <= j < q && #[trigger] lm.types[k].fields[j].var_id == size_var)
        }),
{
    lemma_lowered_format_wf(h, ctr);
    let lm = lower_model(h, ctr)->Ok_0.0;
    assert forall|k: int, q: int|
        0 <= k < lm.types.len() && 0 <= q < lm.types[k].fields.len() implies (
    #[trigger] lm.types[k].operations[q] matches SpecLirOp::ReadDynamicArray {
        size_var,
        ..
    } ==> exists|j: int| 0 <= j < q && #[trigger] lm.types[k].fields[j].var_id == size_var) by {
        assert(lowered_type_wf((h.types[k])->Struct_0, h.endianness, h.enums, lm.types[k]));
    };
}

/// An enum-typed field lowers to the read and write operations of the
/// enum's underlying primitive: the read targets the field's own
/// variable, and the write drains the variable its `AccessField` fills.
pub proof fn lemma_enum_lowering(h: SpecHirFormat, ctr: int)
    requires
        lower_model(h, ctr) is Ok,
    ensures
        ({
            let lm = lower_model(h, ctr)->Ok_0.0;
            forall|k: int, q: int|
                0 <= k < lm.types.len() && 0 <= q < lm.types[k].fields.len() && ((
                #[trigger] (h.types[k])->Struct_0.fields[q].field_type)
                    matches SpecHirType::Enum(nm) && find_enum_model(h.enums, nm, 0) is Some)
                    ==> #[trigger] lm.types[k].operations[q] == prim_read_op(
                    find_enum_model(
                        h.enums,
                        (h.types[k])->Struct_0.fields[q].field_type->Enum_0,
                        0,
                    )->0.underlying_type,
                    lm.types[k].fields[q].var_id,
                    h.endianness,
                )
        }),
        ({
            let lm = lower_model(h, ctr)->Ok_0.0;
            forall|k: int, q: int|
                0 <= k < lm.types.len() && 0 <= q < lm.types[k].fields.len() && ((
                #[trigger] (h.types[k])->Struct_0.fields[q].field_type)
                    matches SpecHirType::Enum(nm) && find_enum_model(h.enums, nm, 0) is Some)
                    ==> #[trigger] lm.types[k].operations[lm.types[k].fields.len() + 1 + 2 * q
                    + 1] == prim_write_op(
                    find_enum_model(
                        h.enums,
                        (h.types[k])->Struct_0.fields[q].field_type->Enum_0,
                        0,
                    )->0.underlying_type,
                    spec_op_dest(lm.types[k].operations[lm.types[k].fields.len() + 1 + 2 * q])
                        ->0,
                    h.endianness,
                )
        }),
{
    lemma_lowered_format_wf(h, ctr);
    let lm = lower_model(h, ctr)->Ok_0.0;
    assert forall|k: int, q: int|
        0 <= k < lm.types.len() && 0 <= q < lm.types[k].fields.len() && ((#[trigger] (
    h.types[k])->Struct_0.fields[q].field_type) matches SpecHirType::Enum(nm) && find_enum_model(
        h.enums,
        nm,
        0,
    ) is Some) implies #[trigger] lm.types[k].operations[q] == prim_read_op(
        find_enum_model(h.enums, (h.types[k])->Struct_0.fields[q].field_type->Enum_0, 0)
            ->0.underlying_type,
        lm.types[k].fields[q].var_id,
        h.endianness,
    ) by {
        assert(lowered_type_wf((h.types[k])->Struct_0, h.endianness, h.enums, lm.types[k]));
    };
    assert forall|k: int, q: int|
        0 <= k < lm.types.len() && 0 <= q < lm.types[k].fields.len() && ((#[trigger] (
    h.types[k])->Struct_0.fields[q].field_type) matches SpecHirType::Enum(nm) && find_enum_model(
        h.enums,
        nm,
        0,
    ) is Some) implies #[trigger] lm.types[k].operations[lm.types[k].fields.len() + 1 + 2 * q
        + 1] == prim_write_op(
        find_enum_model(h.enums, (h.types[k])->Struct_0.fields[q].field_type->Enum_0, 0)
            ->0.underlying_type,
        spec_op_dest(lm.types[k].operations[lm.types[k].fields.len() + 1 + 2 * q])->0,
        h.endianness,
    ) by {
        assert(lowered_type_wf((h.types[k])->Struct_0, h.endianness, h.enums, lm.types[k]));
    };
}

} // verus!
