//! C types and variables.

use vstd::prelude::*;

verus! {

/// The shape of a C type.
#[derive(Debug, PartialEq, Eq)]
pub enum Ctype {
    Int,
    /// A pointer to the given type.
    Ptr(Box<Type>),
    /// An array of the given element type and length.
    Ary(Box<Type>, usize),
    /// A struct with the given members, in declaration order.
    Struct(Vec<Member>),
    Void,
}

/// A C type: its shape, its size in bytes and its alignment.
#[derive(Debug, PartialEq, Eq)]
pub struct Type {
    pub ty: Ctype,
    pub size: usize,
    pub align: usize,
}

/// A member of a struct, with its offset from the start of the struct.
#[derive(Debug, PartialEq, Eq)]
pub struct Member {
    pub name: String,
    pub ty: Type,
    pub offset: usize,
}

/// The mathematical value of a [`Ctype`].
pub ghost enum CtypeView {
    Int,
    Ptr(Box<TypeView>),
    Ary(Box<TypeView>, usize),
    Struct(Seq<MemberView>),
    Void,
}

/// The mathematical value of a [`Type`].
pub ghost struct TypeView {
    pub ty: CtypeView,
    pub size: usize,
    pub align: usize,
}

/// The mathematical value of a [`Member`].
pub ghost struct MemberView {
    pub name: Seq<char>,
    pub ty: TypeView,
    pub offset: usize,
}

/// The mathematical value of a type.
pub open spec fn type_view(t: Type) -> TypeView
    decreases t,
{
    TypeView { ty: ctype_view(t.ty), size: t.size, align: t.align }
}

/// The mathematical value of the shape of a type.
pub open spec fn ctype_view(c: Ctype) -> CtypeView
    decreases c,
{
    match c {
        Ctype::Int => CtypeView::Int,
        Ctype::Ptr(base) => CtypeView::Ptr(Box::new(type_view(*base))),
        Ctype::Ary(base, len) => CtypeView::Ary(Box::new(type_view(*base)), len),
        Ctype::Struct(members) => CtypeView::Struct(members_view(members@)),
        Ctype::Void => CtypeView::Void,
    }
}

/// The mathematical value of a member.
pub open spec fn member_view(m: Member) -> MemberView
    decreases m,
{
    MemberView { name: m.name@, ty: type_view(m.ty), offset: m.offset }
}

/// The members of a vector, as mathematical values.
pub open spec fn members_view(members: Seq<Member>) -> Seq<MemberView>
    decreases members,
{
    Seq::new(
        members.len(),
        |i: int|
            if 0 <= i < members.len() {
                member_view(members[i])
            } else {
                arbitrary()
            },
    )
}

impl View for Type {
    type V = TypeView;

    open spec fn view(&self) -> TypeView {
        type_view(*self)
    }
}

impl View for Ctype {
    type V = CtypeView;

    open spec fn view(&self) -> CtypeView {
        ctype_view(*self)
    }
}

impl View for Member {
    type V = MemberView;

    open spec fn view(&self) -> MemberView {
        member_view(*self)
    }
}

impl TypeView {
    /// The type `int`.
    pub open spec fn int_ty() -> TypeView {
        TypeView { ty: CtypeView::Int, size: 4, align: 4 }
    }

    /// The type of pointers to `base`.
    pub open spec fn ptr_to(base: TypeView) -> TypeView {
        TypeView { ty: CtypeView::Ptr(Box::new(base)), size: 8, align: 8 }
    }

    /// Whether this is a pointer type.
    pub open spec fn is_ptr(self) -> bool {
        self.ty is Ptr
    }
}

impl Type {
    /// A type of the given shape, size and alignment.
    pub fn new(ty: Ctype, size: usize, align: usize) -> (t: Type)
        ensures
            t == (Type { ty, size, align }),
    {
        Type { ty, size, align }
    }

    /// The type `int`: four bytes, aligned to four.
    pub fn int_ty() -> (t: Type)
        ensures
            t@ == TypeView::int_ty(),
    {
        Type { ty: Ctype::Int, size: 4, align: 4 }
    }

    /// The type of pointers to `base`: eight bytes, aligned to eight.
    pub fn ptr_to(base: Type) -> (t: Type)
        ensures
            t@ == TypeView::ptr_to(base@),
    {
        Type { ty: Ctype::Ptr(Box::new(base)), size: 8, align: 8 }
    }

    /// Whether this is a pointer type.
    pub fn is_ptr(&self) -> (b: bool)
        ensures
            b == self@.is_ptr(),
    {
        match &self.ty {
            Ctype::Ptr(_) => true,
            _ => false,
        }
    }

    /// A copy of this type.
    pub fn duplicate(&self) -> (t: Type)
        ensures
            t@ == self@,
        decreases self,
    {
        let ty = match &self.ty {
            Ctype::Int => Ctype::Int,
            Ctype::Ptr(base) => Ctype::Ptr(Box::new(base.duplicate())),
            Ctype::Ary(base, len) => Ctype::Ary(Box::new(base.duplicate()), *len),
            Ctype::Struct(members) => {
                let mut v: Vec<Member> = Vec::new();
                let mut i: usize = 0;
                while i < members.len()
                    invariant
                        i <= members.len(),
                        self.ty matches Ctype::Struct(ms) && ms == members,
                        v.len() == i,
                        forall|j: int| 0 <= j < i ==> member_view(#[trigger] v[j]) == member_view(members[j]),
                    decreases members.len() - i,
                {
                    let m = &members[i];
                    v.push(Member { name: m.name.clone(), ty: m.ty.duplicate(), offset: m.offset });
                    i += 1;
                }
                assert(members_view(v@) =~= members_view(members@));
                Ctype::Struct(v)
            },
            Ctype::Void => Ctype::Void,
        };
        Type { ty, size: self.size, align: self.align }
    }
}

impl Clone for Type {
    fn clone(&self) -> (t: Self)
        ensures
            t@ == self@,
    {
        self.duplicate()
    }
}

/// Where a variable lives.
#[derive(Debug, PartialEq, Eq)]
pub enum Scope {
    /// On the stack, at the given offset below the frame pointer.
    Local(usize),
    /// In static storage: initial bytes, their length, and whether the
    /// variable is only declared here (`extern`).
    Global(String, usize, bool),
}

/// The mathematical value of a [`Scope`].
pub ghost enum ScopeView {
    Local(usize),
    Global(Seq<char>, usize, bool),
}

impl View for Scope {
    type V = ScopeView;

    open spec fn view(&self) -> ScopeView {
        match self {
            Scope::Local(offset) => ScopeView::Local(*offset),
            Scope::Global(data, len, is_extern) => ScopeView::Global(data@, *len, *is_extern),
        }
    }
}

impl Clone for Scope {
    fn clone(&self) -> (s: Self)
        ensures
            s == *self,
    {
        match self {
            Scope::Local(offset) => Scope::Local(*offset),
            Scope::Global(data, len, is_extern) => Scope::Global(data.clone(), *len, *is_extern),
        }
    }
}

/// A variable: its name, its type and its storage.
#[derive(Debug, PartialEq, Eq)]
pub struct Var {
    pub ty: Type,
    pub name: String,
    pub scope: Scope,
}

/// The mathematical value of a [`Var`].
pub ghost struct VarView {
    pub ty: TypeView,
    pub name: Seq<char>,
    pub scope: ScopeView,
}

impl View for Var {
    type V = VarView;

    open spec fn view(&self) -> VarView {
        VarView { ty: self.ty@, name: self.name@, scope: self.scope@ }
    }
}

impl DeepView for Var {
    type V = VarView;

    open spec fn deep_view(&self) -> VarView {
        self@
    }
}

impl VarView {
    /// A variable in static storage.
    pub open spec fn new_global(
        ty: TypeView,
        name: Seq<char>,
        data: Seq<char>,
        len: usize,
        is_extern: bool,
    ) -> VarView {
        VarView { ty, name, scope: ScopeView::Global(data, len, is_extern) }
    }
}

impl Var {
    /// A variable of the given type, name and storage.
    pub fn new(ty: Type, name: String, scope: Scope) -> (v: Var)
        ensures
            v == (Var { ty, name, scope }),
    {
        Var { ty, name, scope }
    }

    /// A variable in static storage.
    pub fn new_global(ty: Type, name: String, data: String, len: usize, is_extern: bool) -> (v: Var)
        ensures
            v@ == VarView::new_global(ty@, name@, data@, len, is_extern),
    {
        Var { ty, name, scope: Scope::Global(data, len, is_extern) }
    }
}

impl Clone for Var {
    fn clone(&self) -> (v: Self)
        ensures
            v@ == self@,
    {
        Var { ty: self.ty.duplicate(), name: self.name.clone(), scope: self.scope.clone() }
    }
}

/// `x` rounded up to the next multiple of `align`.
pub open spec fn spec_roundup(x: int, align: int) -> int
    recommends
        align > 0,
{
    ((x + align - 1) / align) * align
}

/// Two multiples of `align` that lie less than `align` apart are equal.
proof fn lemma_close_multiples(a: int, b: int, align: int)
    requires
        0 < align,
        a % align == 0,
        b % align == 0,
        a <= b < a + align,
    ensures
        a == b,
{
    vstd::arithmetic::div_mod::lemma_fundamental_div_mod(a, align);
    vstd::arithmetic::div_mod::lemma_fundamental_div_mod(b, align);
    let p = a / align;
    let q = b / align;
    if p < q {
        assert(align * q >= align * (p + 1)) by (nonlinear_arith)
            requires
                q >= p + 1,
                0 < align,
        ;
        assert(align * (p + 1) == align * p + align) by (nonlinear_arith);
    }
    if q < p {
        assert(align * p >= align * (q + 1)) by (nonlinear_arith)
            requires
                p >= q + 1,
                0 < align,
        ;
        assert(align * (q + 1) == align * q + align) by (nonlinear_arith);
    }
}

/// For a positive `align`, `spec_roundup(x, align)` is the one multiple of
/// `align` in the range from `x` up to, but not including, `x + align`:
/// the least multiple of `align` that is not below `x`.
pub proof fn lemma_roundup(x: int, align: int)
    requires
        0 <= x,
        0 < align,
    ensures
        x <= spec_roundup(x, align) < x + align,
        spec_roundup(x, align) % align == 0,
{
    let q = (x + align - 1) / align;
    vstd::arithmetic::div_mod::lemma_fundamental_div_mod(x + align - 1, align);
    vstd::arithmetic::div_mod::lemma_mod_multiples_basic(q, align);
    assert(q * align == align * q) by (nonlinear_arith);
}

/// Rounds `x` up to the next multiple of `align`; `None` where `align`
/// is zero or the result does not fit.
pub fn roundup(x: usize, align: usize) -> (r: Option<usize>)
    ensures
        r matches Some(y) ==> align > 0 && y == spec_roundup(x as int, align as int),
        r is None <==> align == 0 || spec_roundup(x as int, align as int) > usize::MAX,
{
    if align == 0 {
        return None;
    }
    proof {
        lemma_roundup(x as int, align as int);
    }
    let rem = x % align;
    if rem == 0 {
        proof {
            lemma_close_multiples(x as int, spec_roundup(x as int, align as int), align as int);
        }
        Some(x)
    } else {
        let pad = align - rem;
        proof {
            vstd::arithmetic::div_mod::lemma_fundamental_div_mod(x as int, align as int);
            let q = x as int / align as int;
            let y = x as int + pad as int;
            assert(y == align * q + align);
            assert(align * q + align == (q + 1) * align) by (nonlinear_arith);
            vstd::arithmetic::div_mod::lemma_mod_multiples_basic(q + 1, align as int);
            let r = spec_roundup(x as int, align as int);
            if r <= y {
                lemma_close_multiples(r, y, align as int);
            } else {
                lemma_close_multiples(y, r, align as int);
            }
        }
        x.checked_add(pad)
    }
}

} // verus!
