//! Rust text of types, binary operators and paths.
use crate::text::{push_str, str_eq};
use crate::transpiler::compiler::ast::{
    BinaryOp, SSegment, TypeExpr, TypeSegment, lemma_segments_view, lemma_types_view, segments_view,
    type_view, types_view,
};
use super::spec::{
    gen_segment, gen_segments, gen_type, gen_types, join, lemma_join_push, op_text,
    unfold_gen_segment, unfold_gen_segments, unfold_gen_type, unfold_gen_types,
};
use vstd::prelude::*;

verus! {

/// Appends the Rust text of a type.
pub fn push_type(out: &mut Vec<char>, ty: &TypeExpr)
    ensures
        final(out)@ == old(out)@ + gen_type(type_view(*ty)),
    decreases ty,
{
    proof {
        unfold_gen_type(type_view(*ty));
    }
    match ty {
        TypeExpr::Path(path) => {
            let ghost start = out@;
            let ghost sv = segments_view(path.segments@);
            proof {
                lemma_segments_view(path.segments@);
            }
            let mut i: usize = 0;
            assert(decreases_to!(*ty => path.segments@)) by {
                assert(decreases_to!(*ty => *path));
                assert(decreases_to!(*path => path.segments));
                assert(decreases_to!(path.segments => path.segments@));
            }
            assert(sv.take(0) =~= Seq::<SSegment>::empty());
            proof {
                unfold_gen_segments(sv.take(0));
            }
            while i < path.segments.len()
                invariant
                    i <= path.segments@.len(),
                    sv == segments_view(path.segments@),
                    sv.len() == path.segments@.len(),
                    forall|k: int|
                        0 <= k < path.segments@.len() ==> #[trigger] sv[k] == (SSegment {
                            name: path.segments@[k].name@,
                            generics: types_view(path.segments@[k].generics@),
                        }),
                    out@ == start + join(gen_segments(sv.take(i as int)), "::"@),
                    gen_segments(sv.take(i as int)).len() == i,
                    decreases_to!(*ty => path.segments@),
                decreases path.segments@.len() - i,
            {
                let ghost before = gen_segments(sv.take(i as int));
                proof {
                    assert(sv.take(i + 1).drop_last() =~= sv.take(i as int));
                    unfold_gen_segments(sv.take(i + 1));
                    lemma_join_push(before, gen_segment(sv[i as int]), "::"@);
                }
                if i > 0 {
                    push_str(out, "::");
                }
                assert(decreases_to!(path.segments@ => path.segments@[i as int]));
                push_segment(out, &path.segments[i]);
                i += 1;
            }
            assert(sv.take(sv.len() as int) =~= sv);
        },
        TypeExpr::Reference { lifetime, mutable, inner } => {
            push_str(out, "&");
            match lifetime {
                Some(l) => {
                    push_str(out, l.as_str());
                    push_str(out, " ");
                },
                None => {},
            }
            if *mutable {
                push_str(out, "mut ");
            }
            push_type(out, inner);
        },
    }
}

/// Appends the Rust text of a type path segment: `string` becomes `String`, generics follow.
fn push_segment(out: &mut Vec<char>, seg: &TypeSegment)
    ensures
        final(out)@ == old(out)@ + gen_segment(
            SSegment { name: seg.name@, generics: types_view(seg.generics@) },
        ),
    decreases seg,
{
    let ghost gv = types_view(seg.generics@);
    proof {
        unfold_gen_segment(SSegment { name: seg.name@, generics: gv });
        lemma_types_view(seg.generics@);
    }
    if str_eq(seg.name.as_str(), "string") {
        push_str(out, "String");
    } else {
        push_str(out, seg.name.as_str());
    }
    if seg.generics.len() == 0 {
        return;
    }
    push_str(out, "<");
    let ghost start = out@;
    let mut i: usize = 0;
    assert(decreases_to!(*seg => seg.generics@)) by {
        assert(decreases_to!(*seg => seg.generics));
        assert(decreases_to!(seg.generics => seg.generics@));
    }
    assert(gv.take(0) =~= Seq::<crate::transpiler::compiler::ast::SType>::empty());
    proof {
        unfold_gen_types(gv.take(0));
    }
    while i < seg.generics.len()
        invariant
            i <= seg.generics@.len(),
            gv == types_view(seg.generics@),
            gv.len() == seg.generics@.len(),
            forall|k: int| 0 <= k < seg.generics@.len() ==> #[trigger] gv[k] == type_view(seg.generics@[k]),
            out@ == start + join(gen_types(gv.take(i as int)), ", "@),
            gen_types(gv.take(i as int)).len() == i,
            decreases_to!(*seg => seg.generics@),
        decreases seg.generics@.len() - i,
    {
        let ghost before = gen_types(gv.take(i as int));
        proof {
            assert(gv.take(i + 1).drop_last() =~= gv.take(i as int));
            unfold_gen_types(gv.take(i + 1));
            lemma_join_push(before, gen_type(gv[i as int]), ", "@);
        }
        if i > 0 {
            push_str(out, ", ");
        }
        assert(decreases_to!(seg.generics@ => seg.generics@[i as int]));
        push_type(out, &seg.generics[i]);
        i += 1;
    }
    assert(gv.take(gv.len() as int) =~= gv);
    push_str(out, ">");
}

/// The Rust text of a type.
pub fn generate_type(ty: &TypeExpr) -> (text: String)
    ensures
        text@ == gen_type(type_view(*ty)),
{
    let mut out: Vec<char> = Vec::new();
    push_type(&mut out, ty);
    assert(out@ =~= gen_type(type_view(*ty)));
    crate::text::string_of(&out)
}

/// The Rust text of a binary operator.
pub fn generate_binary_op(op: &BinaryOp) -> (text: &'static str)
    ensures
        text@ == op_text(*op),
{
    match op {
        BinaryOp::Mul => "*",
        BinaryOp::Div => "/",
        BinaryOp::Rem => "%",
        BinaryOp::Add => "+",
        BinaryOp::Sub => "-",
        BinaryOp::Gt => ">",
        BinaryOp::Lt => "<",
        BinaryOp::Ge => ">=",
        BinaryOp::Le => "<=",
        BinaryOp::Eq => "==",
        BinaryOp::NotEq => "!=",
        BinaryOp::And => "&&",
        BinaryOp::Or => "||",
    }
}

} // verus!
