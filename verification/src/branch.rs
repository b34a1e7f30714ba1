//! The branch specification model: structured descriptors for the annotated
//! transition functions and hooks that the annotation surface hands over.
//!
//! States and events are identified by the numeric id of their variant, and
//! names (of target functions and bound parameters) by numeric ids as well:
//! the textual annotation syntax is the annotation surface's concern, not
//! this library's.

use vstd::prelude::*;

verus! {

/// A pattern over one component of a (state, event) pair: either a specific
/// variant, or anything.
#[derive(Debug, Clone, Copy, PartialEq, Eq, Structural)]
pub enum VariantPat {
    /// Matches any variant.
    Any,
    /// Matches exactly the variant with this id.
    Is(u64),
}

/// Whether a component pattern matches a variant id.
pub open spec fn variant_pat_matches(p: VariantPat, id: u64) -> bool {
    match p {
        VariantPat::Any => true,
        VariantPat::Is(v) => v == id,
    }
}

/// The shape of a branch's declared pattern: the wildcard `_`, which matches
/// every (state, event) pair and captures nothing, or a (state, event) pair
/// of component patterns.
#[derive(Debug, Clone, Copy, PartialEq, Eq, Structural)]
pub enum BranchPattern {
    /// The catch-all pattern `_`.
    Wildcard,
    /// A (state pattern, event pattern) pair.
    Pair(VariantPat, VariantPat),
}

/// Whether a branch pattern matches a (state, event) pair, given by the
/// variant ids of its two components.
pub open spec fn pattern_matches(p: BranchPattern, sid: u64, eid: u64) -> bool {
    match p {
        BranchPattern::Wildcard => true,
        BranchPattern::Pair(sp, ep) => variant_pat_matches(sp, sid) && variant_pat_matches(ep, eid),
    }
}

/// Executable test of `pattern_matches`.
pub fn pattern_matches_exec(p: &BranchPattern, sid: u64, eid: u64) -> (b: bool)
    ensures
        b == pattern_matches(*p, sid, eid),
{
    match p {
        BranchPattern::Wildcard => true,
        BranchPattern::Pair(sp, ep) => {
            let sm = match sp {
                VariantPat::Any => true,
                VariantPat::Is(v) => *v == sid,
            };
            let em = match ep {
                VariantPat::Any => true,
                VariantPat::Is(v) => *v == eid,
            };
            sm && em
        },
    }
}

/// One annotated transition function, as the annotation surface hands it
/// over: its declared pattern, the names captured by the pattern in order of
/// appearance, its declared parameter names (the receiver excluded, left to
/// right), whether a guard expression qualifies it, the identity of the
/// target function, and whether that function requires cooperative
/// suspension to run.
#[derive(Debug)]
pub struct BranchDecl {
    pub pattern: BranchPattern,
    pub pattern_bindings: Vec<u64>,
    pub params: Vec<u64>,
    pub has_guard: bool,
    pub target: u64,
    pub is_async: bool,
}

/// The mathematical view of a branch declaration.
#[verifier::ext_equal]
pub ghost struct BranchDeclView {
    pub pattern: BranchPattern,
    pub pattern_bindings: Seq<u64>,
    pub params: Seq<u64>,
    pub has_guard: bool,
    pub target: u64,
    pub is_async: bool,
}

impl View for BranchDecl {
    type V = BranchDeclView;

    open spec fn view(&self) -> BranchDeclView {
        BranchDeclView {
            pattern: self.pattern,
            pattern_bindings: self.pattern_bindings@,
            params: self.params@,
            has_guard: self.has_guard,
            target: self.target,
            is_async: self.is_async,
        }
    }
}

/// A branch declaration is valid when its declared parameters can be bound,
/// one for one and in order, to the bindings captured by its pattern; the
/// wildcard captures nothing, so a wildcard branch must declare no bound
/// parameters.
pub open spec fn decl_valid(d: BranchDeclView) -> bool {
    &&& d.params.len() == d.pattern_bindings.len()
    &&& (d.pattern is Wildcard ==> d.pattern_bindings.len() == 0)
}

/// Executable test of `decl_valid`.
pub fn decl_valid_exec(d: &BranchDecl) -> (b: bool)
    ensures
        b == decl_valid(d@),
{
    let shape_ok = match d.pattern {
        BranchPattern::Wildcard => d.pattern_bindings.len() == 0,
        BranchPattern::Pair(_, _) => true,
    };
    d.params.len() == d.pattern_bindings.len() && shape_ok
}

/// The phase in which a hook runs: before dispatch, where it may abort the
/// whole dispatch, or after, where it may replace the outcome.
#[derive(Debug, Clone, Copy, PartialEq, Eq, Structural)]
pub enum Phase {
    Pre,
    Post,
}

/// One declared hook: the identity of its target function and its phase.
#[derive(Debug, Clone, Copy)]
pub struct HookDecl {
    pub phase: Phase,
    pub target: u64,
}

/// One compiled branch descriptor: the validated form of a declaration,
/// placed at `declaration_index` in the compiled table. `binding_order` is
/// the ordered list of bound parameter names.
#[derive(Debug)]
pub struct BranchDescriptor {
    pub pattern: BranchPattern,
    pub binding_order: Vec<u64>,
    pub has_guard: bool,
    pub target: u64,
    pub is_async: bool,
    pub declaration_index: usize,
}

/// The mathematical view of a compiled branch descriptor.
#[verifier::ext_equal]
pub ghost struct BranchDescriptorView {
    pub pattern: BranchPattern,
    pub binding_order: Seq<u64>,
    pub has_guard: bool,
    pub target: u64,
    pub is_async: bool,
    pub declaration_index: int,
}

impl View for BranchDescriptor {
    type V = BranchDescriptorView;

    open spec fn view(&self) -> BranchDescriptorView {
        BranchDescriptorView {
            pattern: self.pattern,
            binding_order: self.binding_order@,
            has_guard: self.has_guard,
            target: self.target,
            is_async: self.is_async,
            declaration_index: self.declaration_index as int,
        }
    }
}

/// The descriptor that a valid declaration compiles to when it is placed at
/// position `k` of the table.
pub open spec fn descriptor_of(d: BranchDeclView, k: int) -> BranchDescriptorView {
    BranchDescriptorView {
        pattern: d.pattern,
        binding_order: d.params,
        has_guard: d.has_guard,
        target: d.target,
        is_async: d.is_async,
        declaration_index: k,
    }
}

} // verus!
