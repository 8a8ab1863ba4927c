//! The generator's symbol table: a stack of frames of typed entries.
use vstd::prelude::*;
use crate::ast::{Ident, Type, copy_ident, copy_ty, is_fut_spec};
use crate::chance::choose_index;
use crate::typing::{EntryKind, EntryModel, TyKey, fresh, has_var_of, key, wf_ty};
use crate::chance::chance;
use crate::text::{letter_spec, letters_of, lemma_letters_injective, pow26, push_char, push_letters};
use vstd::set_lib::lemma_len_subset;
use vstd::string::*;

verus! {

/// A field, variable or callable that generated code may refer to.
pub struct ScopeEntry {
    pub kind: EntryKind,
    pub ty: Type,
    pub ident: Ident,
    pub defined_for: Vec<Type>,
    pub args: Vec<Type>,
}

pub open spec fn keys_of(ts: Seq<Type>) -> Seq<TyKey> {
    ts.map_values(|t: Type| key(t))
}

/// The model of a field or variable entry.
pub open spec fn plain_model(kind: EntryKind, ty: Type, ident: Ident) -> EntryModel {
    EntryModel { kind, name: ident.str@, ty: key(ty), recv: seq![], args: seq![] }
}

pub open spec fn all_wf(ts: Seq<Type>) -> bool {
    forall|i: int| 0 <= i < ts.len() ==> wf_ty(#[trigger] ts[i])
}

impl ScopeEntry {
    pub open spec fn model(self) -> EntryModel {
        EntryModel {
            kind: self.kind,
            name: self.ident.str@,
            ty: key(self.ty),
            recv: keys_of(self.defined_for@),
            args: keys_of(self.args@),
        }
    }

    pub open spec fn wf(self) -> bool {
        wf_ty(self.ty) && all_wf(self.defined_for@) && all_wf(self.args@)
    }

    pub fn new(kind: EntryKind, ty: Type, ident: Ident, defined_for: Vec<Type>, args: Vec<Type>) -> (r: Self)
        ensures
            r.kind == kind,
            r.ty == ty,
            r.ident == ident,
            r.defined_for == defined_for,
            r.args == args,
    {
        ScopeEntry { kind, ty, ident, defined_for, args }
    }

    pub fn field(ty: Type, ident: Ident) -> (r: Self)
        ensures
            r.kind == EntryKind::Field,
            r.ty == ty,
            r.ident == ident,
            r.defined_for@.len() == 0,
            r.args@.len() == 0,
    {
        Self::new(EntryKind::Field, ty, ident, Vec::new(), Vec::new())
    }

    pub fn var(ty: Type, ident: Ident) -> (r: Self)
        ensures
            r.kind == EntryKind::Var,
            r.ty == ty,
            r.ident == ident,
            r.defined_for@.len() == 0,
            r.args@.len() == 0,
    {
        Self::new(EntryKind::Var, ty, ident, Vec::new(), Vec::new())
    }

    pub fn function(ty: Type, ident: Ident, defined_for: Vec<Type>, args: Vec<Type>) -> (r: Self)
        ensures
            r.kind == EntryKind::Fn,
            r.ty == ty,
            r.ident == ident,
            r.defined_for == defined_for,
            r.args == args,
    {
        Self::new(EntryKind::Fn, ty, ident, defined_for, args)
    }

    /// Whether the entry's type is named `name`.
    pub fn is_of_ty(&self, name: &String) -> (r: bool)
        ensures
            r == (self.ty.ident.str@ == name@),
    {
        self.ty.ident.str == *name
    }
}

/// A copy of a type that keeps its key and well-formedness.
pub fn copy_keyed(t: &Type) -> (r: Type)
    requires
        wf_ty(*t),
    ensures
        key(r) == key(*t),
        wf_ty(r),
{
    copy_ty(t)
}

pub fn copy_types(ts: &Vec<Type>) -> (r: Vec<Type>)
    requires
        all_wf(ts@),
    ensures
        keys_of(r@) == keys_of(ts@),
        all_wf(r@),
{
    let mut r: Vec<Type> = Vec::new();
    let mut i: usize = 0;
    while i < ts.len()
        invariant
            i <= ts@.len(),
            all_wf(ts@),
            r@.len() == i,
            all_wf(r@),
            forall|j: int| 0 <= j < i ==> key(#[trigger] r@[j]) == key(ts@[j]),
        decreases ts@.len() - i,
    {
        let t = copy_keyed(&ts[i]);
        r.push(t);
        i += 1;
    }
    assert(keys_of(r@) =~= keys_of(ts@));
    r
}

pub fn copy_entry(e: &ScopeEntry) -> (r: ScopeEntry)
    requires
        e.wf(),
    ensures
        r.model() == e.model(),
        r.wf(),
{
    ScopeEntry {
        kind: e.kind,
        ty: copy_keyed(&e.ty),
        ident: copy_ident(&e.ident),
        defined_for: copy_types(&e.defined_for),
        args: copy_types(&e.args),
    }
}

/// Whether two well-formed types have the same key.
pub fn same_key(a: &Type, b: &Type) -> (r: bool)
    requires
        wf_ty(*a),
        wf_ty(*b),
    ensures
        r == (key(*a) == key(*b)),
{
    if a.ident.str != b.ident.str {
        return false;
    }
    if a.is_fut() {
        a.args[0].ident.str == b.args[0].ident.str
    } else {
        true
    }
}

/// The entries of the frames, innermost frame first, each frame in the order
/// of definition.
pub open spec fn flat(frames: Seq<Seq<EntryModel>>) -> Seq<EntryModel>
    decreases frames.len(),
{
    if frames.len() == 0 {
        seq![]
    } else {
        frames.last() + flat(frames.drop_last())
    }
}

pub open spec fn models(es: Seq<ScopeEntry>) -> Seq<EntryModel> {
    es.map_values(|e: ScopeEntry| e.model())
}

/// A variable or field whose type has the key `k`.
pub open spec fn var_of_key(k: TyKey) -> spec_fn(EntryModel) -> bool {
    |m: EntryModel| m.kind != EntryKind::Fn && m.ty == k
}

/// A callable whose return type is named `name`.
pub open spec fn fn_named(name: Seq<char>) -> spec_fn(EntryModel) -> bool {
    |m: EntryModel| m.kind == EntryKind::Fn && m.ty.0 == name
}

/// One step of a forward filter over the models of `all`.
proof fn lemma_filter_step(all: Seq<ScopeEntry>, i: int, p: spec_fn(EntryModel) -> bool)
    requires
        0 <= i < all.len(),
    ensures
        models(all).take(i + 1).filter(p) == if p(all[i].model()) {
            models(all).take(i).filter(p).push(all[i].model())
        } else {
            models(all).take(i).filter(p)
        },
{
    reveal(Seq::filter);
    let t = models(all).take(i + 1);
    assert(t.drop_last() =~= models(all).take(i));
    assert(t.last() == all[i].model());
}

/// A stack of frames; the bottom frame lives as long as the scope.
pub struct Scope {
    pub stack: Vec<Vec<ScopeEntry>>,
}

impl Scope {
    pub open spec fn frames(&self) -> Seq<Seq<EntryModel>> {
        self.stack@.map_values(|f: Vec<ScopeEntry>| models(f@))
    }

    /// Everything in scope, innermost first.
    pub open spec fn visible(&self) -> Seq<EntryModel> {
        flat(self.frames())
    }

    pub open spec fn wf(&self) -> bool {
        &&& self.stack@.len() >= 1
        &&& forall|i: int, j: int|
            0 <= i < self.stack@.len() && 0 <= j < self.stack@[i]@.len() ==> (#[trigger] self.stack@[i]@[j]).wf()
    }

    pub fn new() -> (r: Self)
        ensures
            r.wf(),
            r.frames() == seq![Seq::<EntryModel>::empty()],
            r.visible() == Seq::<EntryModel>::empty(),
    {
        let mut stack: Vec<Vec<ScopeEntry>> = Vec::new();
        stack.push(Vec::new());
        let r = Scope { stack };
        assert(r.frames() =~~= seq![Seq::<EntryModel>::empty()]);
        assert(flat(r.frames().drop_last()) == Seq::<EntryModel>::empty());
        assert(r.visible() =~= Seq::<EntryModel>::empty());
        r
    }

    /// Frames above the bottom one.
    pub fn depth(&self) -> (r: usize)
        requires
            self.wf(),
        ensures
            r == self.stack@.len() - 1,
    {
        self.stack.len() - 1
    }

    /// Pushes an empty frame.
    pub fn open(&mut self)
        requires
            old(self).wf(),
        ensures
            final(self).wf(),
            final(self).frames() == old(self).frames().push(seq![]),
            final(self).visible() == old(self).visible(),
    {
        self.stack.push(Vec::new());
        assert(self.frames() =~~= old(self).frames().push(seq![]));
        assert(self.frames().drop_last() =~= old(self).frames());
        assert(self.visible() =~= old(self).visible());
    }

    /// Pops the innermost frame; the bottom frame stays.
    pub fn close(&mut self)
        requires
            old(self).wf(),
            old(self).stack@.len() >= 2,
        ensures
            final(self).wf(),
            final(self).frames() == old(self).frames().drop_last(),
    {
        self.stack.pop();
        assert(self.frames() =~= old(self).frames().drop_last());
    }

    /// Adds an entry to the innermost frame.
    pub fn define(&mut self, entry: ScopeEntry)
        requires
            old(self).wf(),
            entry.wf(),
        ensures
            final(self).wf(),
            final(self).frames() == old(self).frames().drop_last().push(
                old(self).frames().last().push(entry.model()),
            ),
            final(self).visible() == old(self).frames().last().push(entry.model()) + flat(
                old(self).frames().drop_last(),
            ),
    {
        let ghost m = entry.model();
        let mut top = self.stack.pop().unwrap();
        top.push(entry);
        self.stack.push(top);
        assert(models(self.stack@.last()@) =~= old(self).frames().last().push(m));
        assert(self.frames() =~~= old(self).frames().drop_last().push(
            old(self).frames().last().push(m),
        ));
        assert(self.frames().drop_last() =~= old(self).frames().drop_last());
    }

    pub fn define_field(&mut self, ty: Type, ident: Ident)
        requires
            old(self).wf(),
            wf_ty(ty),
        ensures
            final(self).wf(),
            final(self).frames() == old(self).frames().drop_last().push(
                old(self).frames().last().push(plain_model(EntryKind::Field, ty, ident)),
            ),
    {
        let e = ScopeEntry::field(ty, ident);
        assert(keys_of(e.defined_for@) =~= seq![]);
        assert(keys_of(e.args@) =~= seq![]);
        assert(e.model() =~~= plain_model(EntryKind::Field, ty, ident));
        self.define(e)
    }

    pub fn define_var(&mut self, ty: Type, ident: Ident)
        requires
            old(self).wf(),
            wf_ty(ty),
        ensures
            final(self).wf(),
            final(self).frames() == old(self).frames().drop_last().push(
                old(self).frames().last().push(plain_model(EntryKind::Var, ty, ident)),
            ),
    {
        let e = ScopeEntry::var(ty, ident);
        assert(keys_of(e.defined_for@) =~= seq![]);
        assert(keys_of(e.args@) =~= seq![]);
        assert(e.model() =~~= plain_model(EntryKind::Var, ty, ident));
        self.define(e)
    }

    pub fn define_fn(&mut self, ty: Type, ident: Ident, defined_for: Vec<Type>, args: Vec<Type>)
        requires
            old(self).wf(),
            wf_ty(ty),
            all_wf(defined_for@),
            all_wf(args@),
        ensures
            final(self).wf(),
            final(self).frames() == old(self).frames().drop_last().push(
                old(self).frames().last().push(EntryModel { kind: EntryKind::Fn, name: ident.str@, ty: key(ty), recv: keys_of(defined_for@), args: keys_of(args@) }),
            ),
    {
        self.define(ScopeEntry::function(ty, ident, defined_for, args))
    }

    /// Copies of all entries, innermost frame first.
    pub fn iter(&self) -> (r: Vec<ScopeEntry>)
        requires
            self.wf(),
        ensures
            models(r@) == self.visible(),
            forall|k: int| 0 <= k < r@.len() ==> (#[trigger] r@[k]).wf(),
    {
        let mut r: Vec<ScopeEntry> = Vec::new();
        let mut i: usize = self.stack.len();
        assert(self.frames().take(i as int) =~= self.frames());
        assert(models(r@) =~= Seq::<EntryModel>::empty());
        while i > 0
            invariant
                i <= self.stack@.len(),
                self.wf(),
                models(r@) + flat(self.frames().take(i as int)) == self.visible(),
                forall|k: int| 0 <= k < r@.len() ==> (#[trigger] r@[k]).wf(),
            decreases i,
        {
            let frame = &self.stack[i - 1];
            let ghost r0 = models(r@);
            let mut j: usize = 0;
            assert(models(frame@).take(0) =~= Seq::<EntryModel>::empty());
            while j < frame.len()
                invariant
                    0 < i <= self.stack@.len(),
                    self.wf(),
                    *frame == self.stack@[i - 1],
                    j <= frame@.len(),
                    models(r@) == r0 + models(frame@).take(j as int),
                    forall|k: int| 0 <= k < r@.len() ==> (#[trigger] r@[k]).wf(),
                decreases frame@.len() - j,
            {
                let e = copy_entry(&frame[j]);
                assert(models(frame@)[j as int] == frame@[j as int].model());
                assert(models(frame@).take(j + 1) =~= models(frame@).take(j as int).push(e.model()));
                let ghost rb = r@;
                r.push(e);
                assert(models(r@) =~= models(rb).push(e.model()));
                j += 1;
                assert(models(r@) =~= r0 + models(frame@).take(j as int));
            }
            proof {
                let fs = self.frames().take(i as int);
                assert(fs.last() == models(frame@));
                assert(fs.drop_last() =~= self.frames().take(i - 1));
                assert(models(frame@).take(j as int) =~= models(frame@));
                assert(models(r@) + flat(self.frames().take(i - 1)) =~= r0 + flat(fs));
            }
            i -= 1;
        }
        assert(self.frames().take(0) =~= Seq::<Seq<EntryModel>>::empty());
        assert(models(r@) + flat(self.frames().take(0)) =~= models(r@));
        r
    }

    /// The variables and fields whose type has the key of `ty`.
    pub fn of_type(&self, ty: &Type) -> (r: Vec<ScopeEntry>)
        requires
            self.wf(),
            wf_ty(*ty),
        ensures
            forall|k: int|
                0 <= k < r@.len() ==> {
                    &&& (#[trigger] r@[k]).wf()
                    &&& r@[k].kind != EntryKind::Fn
                    &&& key(r@[k].ty) == key(*ty)
                    &&& self.visible().contains(r@[k].model())
                },
            r@.len() > 0 <==> has_var_of(self.visible(), key(*ty)),
            models(r@) == self.visible().filter(var_of_key(key(*ty))),
    {
        let all = self.iter();
        let mut r: Vec<ScopeEntry> = Vec::new();
        let mut i: usize = 0;
        while i < all.len()
            invariant
                self.wf(),
                wf_ty(*ty),
                i <= all@.len(),
                models(all@) == self.visible(),
                forall|k: int| 0 <= k < all@.len() ==> (#[trigger] all@[k]).wf(),
                forall|k: int|
                    0 <= k < r@.len() ==> {
                        &&& (#[trigger] r@[k]).wf()
                        &&& r@[k].kind != EntryKind::Fn
                        &&& key(r@[k].ty) == key(*ty)
                        &&& self.visible().contains(r@[k].model())
                    },
                r@.len() == 0 ==> forall|k: int|
                    0 <= k < i ==> !(#[trigger] all@[k].kind != EntryKind::Fn && key(all@[k].ty) == key(*ty)),
                r@.len() > 0 ==> has_var_of(self.visible(), key(*ty)),
                models(r@) == models(all@).take(i as int).filter(var_of_key(key(*ty))),
            decreases all@.len() - i,
        {
            let e = &all[i];
            proof {
                lemma_filter_step(all@, i as int, var_of_key(key(*ty)));
            }
            let ghost rb = r@;
            if e.kind != EntryKind::Fn && same_key(&e.ty, ty) {
                proof {
                    assert(models(all@)[i as int] == e.model());
                    assert(self.visible()[i as int] == e.model());
                    assert(self.visible()[i as int].kind != EntryKind::Fn && self.visible()[i as int].ty == key(*ty));
                }
                r.push(copy_entry(e));
                assert(models(r@) =~= models(rb).push(e.model()));
            }
            i += 1;
        }
        assert(models(all@).take(all@.len() as int) =~= models(all@));
        proof {
            if has_var_of(self.visible(), key(*ty)) && r@.len() == 0 {
                let w = choose|w: int|
                    0 <= w < self.visible().len() && #[trigger] self.visible()[w].kind != EntryKind::Fn
                        && self.visible()[w].ty == key(*ty);
                assert(models(all@)[w] == all@[w].model());
            }
        }
        r
    }

    pub fn has_of_type(&self, ty: &Type) -> (r: bool)
        requires
            self.wf(),
            wf_ty(*ty),
        ensures
            r == has_var_of(self.visible(), key(*ty)),
    {
        self.of_type(ty).len() > 0
    }

    /// The callables in scope.
    pub fn functions(&self) -> (r: Vec<ScopeEntry>)
        requires
            self.wf(),
        ensures
            forall|k: int|
                0 <= k < r@.len() ==> {
                    &&& (#[trigger] r@[k]).wf()
                    &&& r@[k].kind == EntryKind::Fn
                    &&& self.visible().contains(r@[k].model())
                },
            r@.len() > 0 <==> exists|i: int|
                0 <= i < self.visible().len() && #[trigger] self.visible()[i].kind == EntryKind::Fn,
    {
        let all = self.iter();
        let mut r: Vec<ScopeEntry> = Vec::new();
        let mut i: usize = 0;
        while i < all.len()
            invariant
                self.wf(),
                i <= all@.len(),
                models(all@) == self.visible(),
                forall|k: int| 0 <= k < all@.len() ==> (#[trigger] all@[k]).wf(),
                forall|k: int|
                    0 <= k < r@.len() ==> {
                        &&& (#[trigger] r@[k]).wf()
                        &&& r@[k].kind == EntryKind::Fn
                        &&& self.visible().contains(r@[k].model())
                    },
                r@.len() == 0 ==> forall|k: int| 0 <= k < i ==> (#[trigger] all@[k]).kind != EntryKind::Fn,
                r@.len() > 0 ==> exists|j: int|
                    0 <= j < self.visible().len() && #[trigger] self.visible()[j].kind == EntryKind::Fn,
            decreases all@.len() - i,
        {
            let e = &all[i];
            if e.kind == EntryKind::Fn {
                proof {
                    assert(models(all@)[i as int] == e.model());
                    assert(self.visible()[i as int] == e.model());
                    assert(self.visible()[i as int].kind == EntryKind::Fn);
                }
                r.push(copy_entry(e));
            }
            i += 1;
        }
        proof {
            if r@.len() == 0 {
                assert forall|j: int| 0 <= j < self.visible().len() implies
                    #[trigger] self.visible()[j].kind != EntryKind::Fn by {
                    assert(models(all@)[j] == all@[j].model());
                }
            }
        }
        r
    }

    /// The callables whose return type is named like `ty`, in iteration
    /// order.
    pub fn fn_of_type(&self, ty: &Type) -> (r: Vec<ScopeEntry>)
        requires
            self.wf(),
        ensures
            forall|k: int|
                0 <= k < r@.len() ==> {
                    &&& (#[trigger] r@[k]).wf()
                    &&& r@[k].kind == EntryKind::Fn
                    &&& r@[k].ty.ident.str@ == ty.ident.str@
                    &&& self.visible().contains(r@[k].model())
                },
            models(r@) == self.visible().filter(fn_named(ty.ident.str@)),
    {
        let all = self.iter();
        let mut r: Vec<ScopeEntry> = Vec::new();
        let mut i: usize = 0;
        while i < all.len()
            invariant
                i <= all@.len(),
                models(all@) == self.visible(),
                forall|k: int| 0 <= k < all@.len() ==> (#[trigger] all@[k]).wf(),
                forall|k: int|
                    0 <= k < r@.len() ==> {
                        &&& (#[trigger] r@[k]).wf()
                        &&& r@[k].kind == EntryKind::Fn
                        &&& r@[k].ty.ident.str@ == ty.ident.str@
                        &&& self.visible().contains(r@[k].model())
                    },
                models(r@) == models(all@).take(i as int).filter(fn_named(ty.ident.str@)),
            decreases all@.len() - i,
        {
            let e = &all[i];
            proof {
                lemma_filter_step(all@, i as int, fn_named(ty.ident.str@));
                assert(key(e.ty).0 == e.ty.ident.str@);
            }
            let ghost rb = r@;
            if e.kind == EntryKind::Fn && e.is_of_ty(&ty.ident.str) {
                proof {
                    assert(models(all@)[i as int] == e.model());
                    assert(self.visible()[i as int] == e.model());
                }
                r.push(copy_entry(e));
                assert(models(r@) =~= models(rb).push(e.model()));
            }
            i += 1;
        }
        assert(models(all@).take(all@.len() as int) =~= models(all@));
        r
    }

    /// A uniform pick among `v`.
    fn sample(&self, rng: &mut rand::rngs::StdRng, v: &Vec<ScopeEntry>) -> (r: ScopeEntry)
        requires
            v@.len() > 0,
            forall|k: int| 0 <= k < v@.len() ==> (#[trigger] v@[k]).wf(),
        ensures
            r.wf(),
            exists|k: int| 0 <= k < v@.len() && r.model() == (#[trigger] v@[k]).model(),
    {
        let k = choose_index(rng, v.len());
        let r = copy_entry(&v[k]);
        assert(r.model() == v@[k as int].model());
        r
    }

    /// A uniform pick among the variables and fields of future type.
    pub fn get_fut(&self, rng: &mut rand::rngs::StdRng) -> (r: Option<ScopeEntry>)
        requires
            self.wf(),
        ensures
            r matches Some(e) ==> e.wf() && e.kind != EntryKind::Fn && is_fut_spec(e.ty)
                && self.visible().contains(e.model()),
            r is None <==> forall|k: int|
                0 <= k < self.visible().len() ==> !(#[trigger] self.visible()[k].kind != EntryKind::Fn
                    && self.visible()[k].ty.0 == "Fut"@),
    {
        let all = self.iter();
        let mut v: Vec<ScopeEntry> = Vec::new();
        let mut i: usize = 0;
        while i < all.len()
            invariant
                i <= all@.len(),
                models(all@) == self.visible(),
                forall|k: int| 0 <= k < all@.len() ==> (#[trigger] all@[k]).wf(),
                forall|k: int|
                    0 <= k < v@.len() ==> {
                        &&& (#[trigger] v@[k]).wf()
                        &&& v@[k].kind != EntryKind::Fn
                        &&& is_fut_spec(v@[k].ty)
                        &&& self.visible().contains(v@[k].model())
                    },
                v@.len() == 0 ==> forall|k: int| 0 <= k < i ==> !((#[trigger] all@[k]).kind != EntryKind::Fn && is_fut_spec(all@[k].ty)),
                v@.len() > 0 ==> exists|k: int| 0 <= k < all@.len() && (#[trigger] all@[k]).kind != EntryKind::Fn && is_fut_spec(all@[k].ty),
            decreases all@.len() - i,
        {
            if all[i].kind != EntryKind::Fn && all[i].ty.is_fut() {
                proof {
                    assert(models(all@)[i as int] == all@[i as int].model());
                }
                let e = copy_entry(&all[i]);
                v.push(e);
            }
            i += 1;
        }
        proof {
            assert forall|k: int| 0 <= k < all@.len() implies
                (#[trigger] self.visible()[k]).ty.0 == key(all@[k].ty).0 && self.visible()[k].kind == all@[k].kind by {
                assert(models(all@)[k] == all@[k].model());
            }
        }
        if v.len() == 0 {
            None
        } else {
            let e = self.sample(rng, &v);
            assert(is_fut_spec(e.ty) == (key(e.ty).0 == "Fut"@));
            Some(e)
        }
    }

    /// A uniform pick among the callables.
    pub fn get_fn(&self, rng: &mut rand::rngs::StdRng) -> (r: Option<ScopeEntry>)
        requires
            self.wf(),
        ensures
            r matches Some(e) ==> e.wf() && e.kind == EntryKind::Fn && self.visible().contains(e.model()),
            r is None <==> forall|i: int|
                0 <= i < self.visible().len() ==> #[trigger] self.visible()[i].kind != EntryKind::Fn,
    {
        let fs = self.functions();
        if fs.len() == 0 {
            None
        } else {
            Some(self.sample(rng, &fs))
        }
    }

    /// A uniform pick among the variables and fields.
    pub fn get_assignable_ident(&self, rng: &mut rand::rngs::StdRng) -> (r: ScopeEntry)
        requires
            self.wf(),
            exists|i: int|
                0 <= i < self.visible().len() && #[trigger] self.visible()[i].kind != EntryKind::Fn,
        ensures
            r.wf(),
            r.kind != EntryKind::Fn,
            self.visible().contains(r.model()),
    {
        let all = self.iter();
        let mut v: Vec<ScopeEntry> = Vec::new();
        let mut i: usize = 0;
        while i < all.len()
            invariant
                i <= all@.len(),
                models(all@) == self.visible(),
                forall|k: int| 0 <= k < all@.len() ==> (#[trigger] all@[k]).wf(),
                forall|k: int|
                    0 <= k < v@.len() ==> {
                        &&& (#[trigger] v@[k]).wf()
                        &&& v@[k].kind != EntryKind::Fn
                        &&& self.visible().contains(v@[k].model())
                    },
                v@.len() == 0 ==> forall|k: int| 0 <= k < i ==> (#[trigger] all@[k]).kind == EntryKind::Fn,
            decreases all@.len() - i,
        {
            if all[i].kind != EntryKind::Fn {
                proof {
                    assert(models(all@)[i as int] == all@[i as int].model());
                }
                let e = copy_entry(&all[i]);
                v.push(e);
            }
            i += 1;
        }
        proof {
            if v@.len() == 0 {
                let w = choose|w: int|
                    0 <= w < self.visible().len() && #[trigger] self.visible()[w].kind != EntryKind::Fn;
                assert(models(all@)[w] == all@[w].model());
            }
        }
        self.sample(rng, &v)
    }

    /// Whether some entry is named `name`.
    pub fn has_name(&self, name: &String) -> (r: bool)
        requires
            self.wf(),
        ensures
            r == !fresh(self.visible(), name@),
    {
        let all = self.iter();
        let mut i: usize = 0;
        while i < all.len()
            invariant
                i <= all@.len(),
                models(all@) == self.visible(),
                forall|k: int| 0 <= k < i ==> (#[trigger] all@[k]).ident.str@ != name@,
            decreases all@.len() - i,
        {
            if all[i].ident.str == *name {
                assert(models(all@)[i as int] == all@[i as int].model());
                assert(self.visible()[i as int].name == name@);
                return true;
            }
            i += 1;
        }
        assert forall|k: int| 0 <= k < self.visible().len() implies #[trigger] self.visible()[k].name != name@ by {
            assert(models(all@)[k] == all@[k].model());
        }
        false
    }

    /// A six-letter name that no entry has: drawn afresh up to `NAME_TRIES`
    /// times, then, if every draw was taken, the first free one of `aaaaaa`,
    /// `aaaaab`, ... . `None` only for a scope of `26^6` entries or more.
    pub fn free_var_ident(&self, rng: &mut rand::rngs::StdRng) -> (r: Option<Ident>)
        requires
            self.wf(),
        ensures
            r matches Some(x) ==> fresh(self.visible(), x.str@) && x.str@.len() == 6 && 'a' <= x.str@[0] <= 'z',
            self.visible().len() < NAME_SPACE ==> r is Some,
    {
        let mut tries: u32 = 0;
        while tries < NAME_TRIES
            invariant
                self.wf(),
            decreases NAME_TRIES - tries,
        {
            let name = generate_name(rng);
            if !self.has_name(&name) {
                return Some(Ident { str: name });
            }
            tries += 1;
        }
        let n = self.iter().len();
        if n >= NAME_SPACE as usize {
            return None;
        }
        let ghost vis = self.visible();
        let ghost names = vis.map_values(|m: EntryModel| m.name).to_set();
        let ghost mut cands: Set<Seq<char>> = Set::empty();
        let mut k: u32 = 0;
        while (k as usize) <= n
            invariant
                self.wf(),
                vis == self.visible(),
                n == vis.len(),
                n < NAME_SPACE,
                k <= n + 1,
                names == vis.map_values(|m: EntryModel| m.name).to_set(),
                cands.finite(),
                cands.len() == k,
                forall|c: Seq<char>| #[trigger] cands.contains(c) ==> names.contains(c),
                forall|c: Seq<char>| #[trigger] cands.contains(c) ==> exists|j: nat| j < k && c == letters_of(j, 6),
            decreases n + 1 - k,
        {
            let mut name = String::new();
            push_letters(&mut name, k, 6);
            proof {
                assert(name@ == letters_of(k as nat, 6));
                reveal_with_fuel(pow26, 7);
                assert(pow26(6) == NAME_SPACE);
                reveal_with_fuel(letters_of, 7);
                assert(name@.len() == 6);
                let d0 = (k as nat / 26 / 26 / 26 / 26 / 26) % 26;
                assert(name@[0] == letter_spec(d0));
                assert(('a' as u32 + d0) as char as u32 == 'a' as u32 + d0);
            }
            if !self.has_name(&name) {
                return Some(Ident { str: name });
            }
            proof {
                let w = choose|w: int| 0 <= w < vis.len() && #[trigger] vis[w].name == name@;
                assert(vis.map_values(|m: EntryModel| m.name)[w] == name@);
                assert(names.contains(name@));
                if cands.contains(name@) {
                    let j = choose|j: nat| j < k && name@ == letters_of(j, 6);
                    lemma_letters_injective(j, k as nat, 6);
                }
                cands = cands.insert(name@);
            }
            k += 1;
        }
        proof {
            vis.map_values(|m: EntryModel| m.name).lemma_cardinality_of_set();
            lemma_len_subset(cands, names);
        }
        None
    }
}

/// Names that `free_var_ident` can spell in its fallback: `26^6`.
pub const NAME_SPACE: u32 = 308915776;

/// How often `free_var_ident` draws before it gives up.
pub const NAME_TRIES: u32 = 64;

/// A letter for position `i` of a name: lowercase first, then either case
/// with equal chance.
pub fn rand_char(rng: &mut rand::rngs::StdRng, i: u32) -> (r: char)
    ensures
        ('a' <= r <= 'z') || (i > 0 && 'A' <= r <= 'Z'),
{
    let lower = "abcdefghijklmnopqrstuvwxyz";
    let upper = "ABCDEFGHIJKLMNOPQRSTUVWXYZ";
    proof {
        reveal_strlit("abcdefghijklmnopqrstuvwxyz");
        reveal_strlit("ABCDEFGHIJKLMNOPQRSTUVWXYZ");
    }
    let idx = choose_index(rng, 26);
    assert(forall|k: int| 0 <= k < 26 ==> 'a' <= #[trigger] lower@[k] <= 'z');
    assert(forall|k: int| 0 <= k < 26 ==> 'A' <= #[trigger] upper@[k] <= 'Z');
    if i == 0 || chance(rng, 500000) {
        lower.get_char(idx)
    } else {
        upper.get_char(idx)
    }
}

/// A random six-letter name.
pub fn generate_name(rng: &mut rand::rngs::StdRng) -> (r: String)
    ensures
        r@.len() == 6,
        'a' <= r@[0] <= 'z',
        forall|k: int| 0 <= k < 6 ==> ('a' <= #[trigger] r@[k] <= 'z') || ('A' <= r@[k] <= 'Z'),
{
    let mut s = String::new();
    let mut i: u32 = 0;
    while i < 6
        invariant
            i <= 6,
            s@.len() == i,
            i > 0 ==> 'a' <= s@[0] <= 'z',
            forall|k: int| 0 <= k < i ==> ('a' <= #[trigger] s@[k] <= 'z') || ('A' <= s@[k] <= 'Z'),
        decreases 6 - i,
    {
        let c = rand_char(rng, i);
        push_char(&mut s, c);
        i += 1;
    }
    s
}

} // verus!
