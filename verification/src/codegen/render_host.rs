//! What a module shows to its host: the `Imports` trait, the dispatch methods of
//! indirect calls, and the registries of outside functions.


use vstd::prelude::*;

use crate::codegen::analysis::{rust_type, rust_type_text, rust_types, rust_types_text};
use crate::codegen::context::{CtxV, ImportV, ModuleCtx};
use crate::codegen::func::body::{arrow_text, return_ty, return_type};
use crate::codegen::func::calls::same_types;
use crate::codegen::info::{kinds_view, CompositeKind, ImportInfo, ImportedGlobalInfo, KindV, SigV};
use crate::codegen::parts::{ModuleParts, PartsV};
use crate::codegen::render_cont::{lines_result, LinesR};
use crate::error::{no_support, text_result, unsupported, FailV, TranspileError};
use crate::text::{dec, join, joined, lit, opt_text, Buf, Lines};
use crate::wasm::ValType;

verus! {

/// Parameters behind `out`, named by `stem` and their position.
pub open spec fn typed_params(
    out: Seq<char>,
    stem: Seq<char>,
    tys: Seq<ValType>,
    kinds: Seq<KindV>,
    n: nat,
) -> Result<Seq<char>, FailV>
    decreases n,
{
    if n == 0 {
        Ok(out)
    } else {
        match typed_params(out, stem, tys, kinds, (n - 1) as nat) {
            Err(e) => Err(e),
            Ok(front) => match rust_type_text(tys[n - 1], kinds) {
                Err(e) => Err(e),
                Ok(rty) => Ok((front + ", "@ + stem + dec((n - 1) as nat) + ": "@ + rty)),
            },
        }
    }
}

/// The names of `n` arguments.
pub open spec fn arg_names(n: nat) -> Seq<Seq<char>> {
    Seq::new(n, |k: int| ("a"@ + dec(k as nat)))
}

proof fn lemma_typed_fails(
    out: Seq<char>,
    stem: Seq<char>,
    tys: Seq<ValType>,
    kinds: Seq<KindV>,
    i: nat,
    n: nat,
)
    requires
        i <= n,
        typed_params(out, stem, tys, kinds, i) is Err,
    ensures
        typed_params(out, stem, tys, kinds, n) == typed_params(out, stem, tys, kinds, i),
    decreases n - i,
{
    if i < n {
        lemma_typed_fails(out, stem, tys, kinds, i, (n - 1) as nat);
    }
}

/// Parameters behind `head`, named by `stem` and their position.
fn param_list(head: &str, stem: &str, tys: &Vec<ValType>, kinds: &Vec<CompositeKind>) -> (r: Result<
    String,
    TranspileError,
>)
    ensures
        text_result(
            r,
            typed_params(head@, stem@, tys@, kinds_view(kinds@), tys@.len()),
        ),
{
    let mut out = lit(head);
    let mut i: usize = 0;
    while i < tys.len()
        invariant
            i <= tys@.len(),
            typed_params(head@, stem@, tys@, kinds_view(kinds@), i as nat) == Ok::<
                Seq<char>,
                FailV,
            >(out@),
        decreases tys@.len() - i,
    {
        match rust_type(tys[i], kinds) {
            Ok(rty) => {
                out = Buf::lit(&out).s(", ").s(stem).n(i as u64).s(": ").s(rty).end();
            },
            Err(e) => {
                proof {
                    lemma_typed_fails(
                        head@,
                        stem@,
                        tys@,
                        kinds_view(kinds@),
                        (i + 1) as nat,
                        tys@.len(),
                    );
                }
                return Err(e);
            },
        }
        i += 1;
    }
    Ok(out)
}

/// The names of `n` arguments, as a list.
fn arg_list(n: usize) -> (r: String)
    ensures
        r@ == joined(arg_names(n as nat), ", "@),
{
    let mut out = Lines::new();
    let mut i: usize = 0;
    while i < n
        invariant
            i <= n,
            out@ =~= arg_names(i as nat),
        decreases n - i,
    {
        out.add(Buf::lit("a").n(i as u64).end());
        i += 1;
    }
    join(&out.v, ", ")
}

fn arrow(ret: &Option<String>) -> (r: String)
    ensures
        r@ == arrow_text(opt_text(*ret)),
{
    match ret {
        Some(t) => Buf::lit(" -> ").s(t).end(),
        None => String::new(),
    }
}

// ---------------------------------------------------------------------------
// The host
// ---------------------------------------------------------------------------
impl PartsV {
    /// Whether the module has an import that its host must provide. Recognised
    /// WASI imports are native inherent methods and need no host.
    pub open spec fn needs_host(self) -> bool {
        ||| exists|i: int| 0 <= i < self.imports.len() && (#[trigger] self.imports[i]).wasi is None
        ||| self.imported_globals.len() > 0
        ||| exists|i: int| 0 <= i < self.memories.len() && (#[trigger] self.memories[i]).imported
        ||| self.table_imported()
    }

    pub open spec fn table_imported(self) -> bool {
        self.table matches Some(t) && t.imported
    }

    /// The generic parameters of `Instance` where they are bound.
    pub open spec fn bound_generics(self) -> Seq<char> {
        if self.needs_host() {
            "<H: Imports>"@
        } else {
            ""@
        }
    }

    /// The generic parameters of `Instance` where it is named.
    pub open spec fn named_generics(self) -> Seq<char> {
        if self.needs_host() {
            "<H>"@
        } else {
            ""@
        }
    }
}

impl<'a> ModuleParts<'a> {
    /// Whether some memory is lent by the host.
    pub fn some_memory_imported(&self) -> (r: bool)
        ensures
            r == exists|i: int|
                0 <= i < self@.memories.len() && (#[trigger] self@.memories[i]).imported,
    {
        let mut i: usize = 0;
        while i < self.memories.len()
            invariant
                i <= self.memories@.len(),
                forall|k: int| 0 <= k < i ==> !(#[trigger] self.memories@[k]).imported,
            decreases self.memories@.len() - i,
        {
            if self.memories[i].imported {
                assert(self@.memories[i as int].imported);
                return true;
            }
            i += 1;
        }
        false
    }

    pub fn is_table_imported(&self) -> (r: bool)
        ensures
            r == self@.table_imported(),
    {
        match self.table {
            Some(t) => t.imported,
            None => false,
        }
    }

    /// Whether the module needs the injected `Imports` host trait — i.e. it has a
    /// non-WASI function import, an imported global, or host-owned memory/table.
    /// Recognised WASI imports are native inherent methods and need no host, so a
    /// module whose imports are all WASI is fully standalone.
    pub fn needs_host_trait(&self) -> (r: bool)
        ensures
            r == self@.needs_host(),
    {
        let mut i: usize = 0;
        while i < self.imports.len()
            invariant
                i <= self.imports@.len(),
                forall|k: int| 0 <= k < i ==> !((#[trigger] self@.imports[k]).wasi is None),
            decreases self.imports@.len() - i,
        {
            assert(self@.imports[i as int] == self.imports@[i as int]@);
            if self.imports[i].wasi.is_none() {
                return true;
            }
            i += 1;
        }
        self.imported_globals.len() > 0 || self.some_memory_imported() || self.is_table_imported()
    }

    /// The generic-parameter fragments for the `Instance` type: `<H: Imports>`
    /// where the parameter is bound (struct/impl headers) and `<H>` where the type
    /// is merely named (`Instance<H>`), or empty strings when no host is needed.
    pub fn host_generics(&self) -> (r: (&'static str, &'static str))
        ensures
            r.0@ == self@.bound_generics(),
            r.1@ == self@.named_generics(),
    {
        if self.needs_host_trait() {
            ("<H: Imports>", "<H>")
        } else {
            ("", "")
        }
    }
}

// ---------------------------------------------------------------------------
// Dispatch methods
// ---------------------------------------------------------------------------
impl CtxV {
    /// The `match` arms of the functions below `n` that have the signature `want`.
    pub open spec fn dispatch_arms(
        self,
        out: Seq<Seq<char>>,
        want: SigV,
        args: Seq<char>,
        n: nat,
    ) -> Seq<Seq<char>>
        decreases n,
    {
        if n == 0 {
            out
        } else {
            let front = self.dispatch_arms(out, want, args, (n - 1) as nat);
            if self.sig(n - 1) == Some(want) {
                front.push(("        "@ + dec((n - 1) as nat) + "u32 => "@
                    + self.call_text(n - 1, args) + ","@))
            } else {
                front
            }
        }
    }

    /// The method that calls a function reference of type `ti`, behind `out`.
    pub open spec fn dispatch_method(self, out: Seq<Seq<char>>, ti: u32, hosted: bool) -> LinesR {
        if ti >= self.types.len() {
            Err(unsupported("call_indirect: unknown type"@))
        } else {
            let sig = self.types[ti as int];
            let args = joined(arg_names(sig.params.len()), ", "@);
            let sep = if args.len() == 0 {
                ""@
            } else {
                ", "@
            };
            match typed_params("&mut self, f: u32"@, "a"@, sig.params, self.kinds,
                sig.params.len()) {
                Err(e) => Err(e),
                Ok(params) => match return_type(sig.results, self.kinds) {
                    Err(e) => Err(e),
                    Ok(ret) => {
                        let o1 = self.dispatch_arms(
                            out.push(
                                ("pub fn call_ref_t"@ + dec(ti as nat) + "("@ + params + ")"@
                                    + arrow_text(ret) + " {"@),
                            ).push("    match f {"@),
                            sig,
                            args,
                            self.n_funcs(),
                        );
                        let o2 = if hosted {
                            o1.push(
                                "        u32::MAX => panic!(\"indirect call type mismatch\"),"@,
                            ).push(
                                ("        h if (h & 0x8000_0000u32) != 0 => self.imports.call_ref_t"@
                                    + dec(ti as nat) + "(h & 0x7fff_ffffu32"@ + sep + args + "),"@),
                            )
                        } else {
                            o1
                        };
                        Ok(
                            o2.push(
                                "        _ => panic!(\"indirect call type mismatch\"),"@,
                            ).push("    }"@).push("}"@),
                        )
                    },
                },
            }
        }
    }

    /// The dispatch methods of the given types, each behind a blank line.
    pub open spec fn dispatch_methods(
        self,
        out: Seq<Seq<char>>,
        sigs: Seq<u32>,
        hosted: bool,
    ) -> LinesR
        decreases sigs.len(),
    {
        if sigs.len() == 0 {
            Ok(out)
        } else {
            match self.dispatch_methods(out, sigs.drop_last(), hosted) {
                Err(e) => Err(e),
                Ok(front) => self.dispatch_method(front.push(""@), sigs.last(), hosted),
            }
        }
    }

    /// The registry of outside functions of type `ti`, behind `out`.
    pub open spec fn registry(self, out: Seq<Seq<char>>, ti: u32) -> LinesR {
        if ti >= self.types.len() {
            Err(unsupported("call_indirect: unknown type"@))
        } else {
            let sig = self.types[ti as int];
            let args = joined(arg_names(sig.params.len()), ", "@);
            match rust_types_text(sig.params, self.kinds) {
                Err(e) => Err(e),
                Ok(tys) => match return_type(sig.results, self.kinds) {
                    Err(e) => Err(e),
                    Ok(ret) => match typed_params(
                        "&mut self, slot: u32"@,
                        "a"@,
                        sig.params,
                        self.kinds,
                        sig.params.len(),
                    ) {
                        Err(e) => Err(e),
                        Ok(params) => {
                            let boxed = ("Box<dyn FnMut("@ + joined(tys, ", "@) + ")"@
                                + arrow_text(ret) + ">"@);
                            Ok(
                                out.push(""@).push("#[allow(dead_code)]"@).push(
                                    ("pub struct ExternFuncs"@ + dec(ti as nat) + " {"@),
                                ).push(("    fns: Vec<"@ + boxed + ">,"@)).push("}"@).push(
                                    "#[allow(dead_code)]"@,
                                ).push(("impl ExternFuncs"@ + dec(ti as nat) + " {"@)).push(
                                    "    pub fn new() -> Self {"@,
                                ).push("        Self { fns: Vec::new() }"@).push("    }"@).push(
                                    ("    pub fn register(&mut self, f: "@ + boxed + ") -> u32 {"@),
                                ).push("        let slot = self.fns.len() as u32;"@).push(
                                    "        self.fns.push(f);"@,
                                ).push("        0x8000_0000u32 | slot"@).push("    }"@).push(
                                    ("    pub fn call("@ + params + ")"@ + arrow_text(ret) + " {"@),
                                ).push(("        (self.fns[slot as usize])("@ + args + ")"@)).push(
                                    "    }"@,
                                ).push("}"@),
                            )
                        },
                    },
                },
            }
        }
    }

    /// The registries of outside functions of the given types, behind `out`.
    pub open spec fn registries(self, out: Seq<Seq<char>>, sigs: Seq<u32>) -> LinesR
        decreases sigs.len(),
    {
        if sigs.len() == 0 {
            Ok(out)
        } else {
            match self.registries(out, sigs.drop_last()) {
                Err(e) => Err(e),
                Ok(front) => self.registry(front, sigs.last()),
            }
        }
    }
}

proof fn lemma_methods_fail(
    c: CtxV,
    out: Seq<Seq<char>>,
    sigs: Seq<u32>,
    hosted: bool,
    k: int,
)
    requires
        0 <= k <= sigs.len(),
        c.dispatch_methods(out, sigs.take(k), hosted) is Err,
    ensures
        c.dispatch_methods(out, sigs, hosted) == c.dispatch_methods(out, sigs.take(k), hosted),
    decreases sigs.len() - k,
{
    if k < sigs.len() {
        assert(sigs.take(k + 1).drop_last() =~= sigs.take(k));
        lemma_methods_fail(c, out, sigs, hosted, k + 1);
    } else {
        assert(sigs.take(k) =~= sigs);
    }
}

proof fn lemma_registries_fail(c: CtxV, out: Seq<Seq<char>>, sigs: Seq<u32>, k: int)
    requires
        0 <= k <= sigs.len(),
        c.registries(out, sigs.take(k)) is Err,
    ensures
        c.registries(out, sigs) == c.registries(out, sigs.take(k)),
    decreases sigs.len() - k,
{
    if k < sigs.len() {
        assert(sigs.take(k + 1).drop_last() =~= sigs.take(k));
        lemma_registries_fail(c, out, sigs, k + 1);
    } else {
        assert(sigs.take(k) =~= sigs);
    }
}

impl<'a> ModuleCtx<'a> {
    /// The `pub fn call_ref_t{ti}(&mut self, f: u32, args..) -> res` dispatch method
    /// for `call_indirect` type index `ti`: a `match` on the funcref that routes
    /// each function whose signature matches (spanning imports then defined
    /// functions) to `call_expr`, with a catch-all trap for null or a wrong type.
    /// Made `pub` so the host can invoke a funcref the module exported (the
    /// outbound half of cross-instance dispatch).
    ///
    /// The high bit tags an outside handle the host resolves (see the trait's
    /// defaulted `call_ref_t{ti}`); the tag is stripped before the host sees the
    /// slot. `u32::MAX` (null) has the high bit set too, so it is matched first
    /// and traps rather than being forwarded. Only a module with a host (an
    /// `Imports` trait) can receive outside handles.
    fn dispatch_method_lines(&self, lines: &mut Lines, ti: u32, hosted: bool) -> (r: Result<
        (),
        TranspileError,
    >)
        requires
            self@.n_funcs() <= usize::MAX,
        ensures
            lines_result(r, final(lines)@, self@.dispatch_method(old(lines)@, ti, hosted)),
    {
        if ti as usize >= self.types.len() {
            return Err(no_support("call_indirect: unknown type"));
        }
        let sig = &self.types[ti as usize];
        assert(self@.types[ti as int] == sig@);
        let params = param_list("&mut self, f: u32", "a", &sig.params, self.type_kinds)?;
        let ret = return_ty(&sig.results, self.type_kinds)?;
        let arrow_src = arrow(&ret);
        let args = arg_list(sig.params.len());
        let sep = if args.as_str().is_empty() {
            ""
        } else {
            ", "
        };
        lines.add(Buf::lit("pub fn call_ref_t").n(ti as u64).s("(").s(&params).s(")").s(&arrow_src)
            .s(" {").end());
        lines.lit("    match f {");
        let ghost o1 = lines@;
        let n: usize = self.func_count();
        let mut i: usize = 0;
        while i < n
            invariant
                i <= n,
                n == self@.n_funcs(),
                lines@ == self@.dispatch_arms(o1, sig@, args@, i as nat),
            decreases n - i,
        {
            match self.full_sig(i) {
                Some((p, q)) => {
                    // Structural type equality (no subtyping), matching
                    // `call_indirect`.
                    if same_types(p, &sig.params) && same_types(q, &sig.results) {
                        let expr = self.call_expr(i, args.as_str());
                        lines.add(Buf::lit("        ").n(i as u64).s("u32 => ").s(&expr).s(",")
                            .end());
                    }
                },
                None => {},
            }
            i += 1;
        }
        if hosted {
            lines.lit("        u32::MAX => panic!(\"indirect call type mismatch\"),");
            lines.add(
                Buf::lit("        h if (h & 0x8000_0000u32) != 0 => self.imports.call_ref_t")
                    .n(ti as u64).s("(h & 0x7fff_ffffu32").s(sep).s(&args).s("),").end(),
            );
        }
        lines.lit("        _ => panic!(\"indirect call type mismatch\"),");
        lines.lit("    }");
        lines.lit("}");
        Ok(())
    }

    /// One public `call_ref_t{ti}` dispatch method per `call_indirect` signature.
    /// It is both the target of the module's own `call_indirect` and the entry
    /// point through which the host invokes a funcref the module handed out.
    pub fn all_dispatch_lines(&self, lines: &mut Lines, sigs: &Vec<u32>, hosted: bool) -> (r: Result<
        (),
        TranspileError,
    >)
        requires
            self@.n_funcs() <= usize::MAX,
        ensures
            lines_result(r, final(lines)@, self@.dispatch_methods(old(lines)@, sigs@, hosted)),
    {
        let ghost start = lines@;
        let mut i: usize = 0;
        while i < sigs.len()
            invariant
                i <= sigs@.len(),
                start == old(lines)@,
                self@.n_funcs() <= usize::MAX,
                self@.dispatch_methods(start, sigs@.take(i as int), hosted) == Ok::<
                    Seq<Seq<char>>,
                    FailV,
                >(lines@),
            decreases sigs@.len() - i,
        {
            assert(sigs@.take(i + 1).drop_last() =~= sigs@.take(i as int));
            lines.lit("");
            match self.dispatch_method_lines(lines, sigs[i], hosted) {
                Ok(()) => {},
                Err(e) => {
                    proof {
                        lemma_methods_fail(self@, start, sigs@, hosted, i + 1);
                    }
                    return Err(e);
                },
            }
            i += 1;
        }
        assert(sigs@.take(sigs@.len() as int) =~= sigs@);
        Ok(())
    }

    /// A module-scope `ExternFuncs{ti}` registry: a small helper the host uses to
    /// link outside funcrefs without hand-managing slot numbers or the handle tag
    /// bit. `register` stores a boxed closure and returns a tagged funcref handle
    /// to place in a table; `call` resolves a stripped slot (as delivered to
    /// `Imports::call_ref_t{ti}`) back to its closure. `#[allow(dead_code)]` since a
    /// host may ignore it.
    fn registry_lines(&self, lines: &mut Lines, ti: u32) -> (r: Result<(), TranspileError>)
        ensures
            lines_result(r, final(lines)@, self@.registry(old(lines)@, ti)),
    {
        if ti as usize >= self.types.len() {
            return Err(no_support("call_indirect: unknown type"));
        }
        let sig = &self.types[ti as usize];
        assert(self@.types[ti as int] == sig@);
        let tys = rust_types(&sig.params, self.type_kinds)?;
        let param_tys = join(&tys, ", ");
        let ret = return_ty(&sig.results, self.type_kinds)?;
        let arrow_src = arrow(&ret);
        let boxed = Buf::lit("Box<dyn FnMut(").s(&param_tys).s(")").s(&arrow_src).s(">").end();
        let params = param_list("&mut self, slot: u32", "a", &sig.params, self.type_kinds)?;
        let args = arg_list(sig.params.len());
        lines.lit("");
        lines.lit("#[allow(dead_code)]");
        lines.add(Buf::lit("pub struct ExternFuncs").n(ti as u64).s(" {").end());
        lines.add(Buf::lit("    fns: Vec<").s(&boxed).s(">,").end());
        lines.lit("}");
        lines.lit("#[allow(dead_code)]");
        lines.add(Buf::lit("impl ExternFuncs").n(ti as u64).s(" {").end());
        lines.lit("    pub fn new() -> Self {");
        lines.lit("        Self { fns: Vec::new() }");
        lines.lit("    }");
        lines.add(Buf::lit("    pub fn register(&mut self, f: ").s(&boxed).s(") -> u32 {").end());
        lines.lit("        let slot = self.fns.len() as u32;");
        lines.lit("        self.fns.push(f);");
        lines.lit("        0x8000_0000u32 | slot");
        lines.lit("    }");
        lines.add(Buf::lit("    pub fn call(").s(&params).s(")").s(&arrow_src).s(" {").end());
        lines.add(Buf::lit("        (self.fns[slot as usize])(").s(&args).s(")").end());
        lines.lit("    }");
        lines.lit("}");
        Ok(())
    }

    /// The registries of outside functions, one per `call_indirect` signature.
    /// Emitted only for modules that can receive outside handles.
    pub fn extern_registry_lines(&self, lines: &mut Lines, sigs: &Vec<u32>) -> (r: Result<
        (),
        TranspileError,
    >)
        ensures
            lines_result(r, final(lines)@, self@.registries(old(lines)@, sigs@)),
    {
        let ghost start = lines@;
        let mut i: usize = 0;
        while i < sigs.len()
            invariant
                i <= sigs@.len(),
                start == old(lines)@,
                self@.registries(start, sigs@.take(i as int)) == Ok::<Seq<Seq<char>>, FailV>(
                    lines@,
                ),
            decreases sigs@.len() - i,
        {
            assert(sigs@.take(i + 1).drop_last() =~= sigs@.take(i as int));
            match self.registry_lines(lines, sigs[i]) {
                Ok(()) => {},
                Err(e) => {
                    proof {
                        lemma_registries_fail(self@, start, sigs@, i + 1);
                    }
                    return Err(e);
                },
            }
            i += 1;
        }
        assert(sigs@.take(sigs@.len() as int) =~= sigs@);
        Ok(())
    }
}

// ---------------------------------------------------------------------------
// The trait
// ---------------------------------------------------------------------------
/// The method of the `j`-th import, behind `out`; a WASI import has none.
pub open spec fn import_method(
    out: Seq<Seq<char>>,
    im: ImportV,
    j: nat,
    kinds: Seq<KindV>,
) -> LinesR {
    if im.wasi is Some {
        Ok(out)
    } else {
        match typed_params("&mut self"@, "a"@, im.params, kinds, im.params.len()) {
            Err(e) => Err(e),
            Ok(params) => if im.results.len() > 1 {
                Err(unsupported("multi-value import result"@))
            } else {
                match return_type(im.results, kinds) {
                    Err(e) => Err(e),
                    Ok(ret) => Ok(
                        out.push(("    fn import"@ + dec(j as nat) + "("@ + params + ")"@
                            + arrow_text(ret) + ";"@)),
                    ),
                }
            },
        }
    }
}

/// The methods of the first `n` imports, behind `out`.
pub open spec fn import_methods(
    out: Seq<Seq<char>>,
    imports: Seq<ImportV>,
    kinds: Seq<KindV>,
    n: nat,
) -> LinesR
    decreases n,
{
    if n == 0 {
        Ok(out)
    } else {
        match import_methods(out, imports, kinds, (n - 1) as nat) {
            Err(e) => Err(e),
            Ok(front) => import_method(front, imports[n - 1], (n - 1) as nat, kinds),
        }
    }
}

/// The getters and setters of the first `n` imported globals, behind `out`.
pub open spec fn global_methods(
    out: Seq<Seq<char>>,
    globals: Seq<ImportedGlobalInfo>,
    kinds: Seq<KindV>,
    n: nat,
) -> LinesR
    decreases n,
{
    if n == 0 {
        Ok(out)
    } else {
        match global_methods(out, globals, kinds, (n - 1) as nat) {
            Err(e) => Err(e),
            Ok(front) => match rust_type_text(globals[n - 1].ty, kinds) {
                Err(e) => Err(e),
                Ok(rty) => {
                    let o = front.push(("    fn get_global"@ + dec((n - 1) as nat) + "(&self) -> "@
                        + rty + ";"@));
                    Ok(
                        if globals[n - 1].mutable {
                            o.push(("    fn set_global"@ + dec((n - 1) as nat) + "(&mut self, v: "@
                                + rty + ");"@))
                        } else {
                            o
                        },
                    )
                },
            },
        }
    }
}

impl CtxV {
    /// The method that resolves an outside function of type `ti`, behind `out`.
    pub open spec fn resolve_method(self, out: Seq<Seq<char>>, ti: u32) -> LinesR {
        if ti >= self.types.len() {
            Err(unsupported("call_indirect: unknown type"@))
        } else {
            let sig = self.types[ti as int];
            match return_type(sig.results, self.kinds) {
                Err(e) => Err(e),
                Ok(ret) => match typed_params(
                    "&mut self, _slot: u32"@,
                    "_a"@,
                    sig.params,
                    self.kinds,
                    sig.params.len(),
                ) {
                    Err(e) => Err(e),
                    Ok(params) => Ok(
                        out.push(
                            ("    fn call_ref_t"@ + dec(ti as nat) + "("@ + params + ")"@
                                + arrow_text(ret)
                                + " { panic!(\"unresolved external funcref\") }"@),
                        ),
                    ),
                },
            }
        }
    }

    pub open spec fn resolve_methods(self, out: Seq<Seq<char>>, sigs: Seq<u32>) -> LinesR
        decreases sigs.len(),
    {
        if sigs.len() == 0 {
            Ok(out)
        } else {
            match self.resolve_methods(out, sigs.drop_last()) {
                Err(e) => Err(e),
                Ok(front) => self.resolve_method(front, sigs.last()),
            }
        }
    }

    /// The `Imports` trait, behind `out`.
    pub open spec fn imports_trait(
        self,
        out: Seq<Seq<char>>,
        imported_globals: Seq<ImportedGlobalInfo>,
        mem_imported: bool,
        table_imported: bool,
        sigs: Seq<u32>,
    ) -> LinesR {
        let o1 = out.push("pub trait Imports {"@);
        let o2 = if mem_imported {
            o1.push("    fn memory(&self) -> &[u8];"@).push(
                "    fn memory_mut(&mut self) -> &mut Vec<u8>;"@,
            )
        } else {
            o1
        };
        let o3 = if table_imported {
            o2.push("    fn table(&self) -> &[u32];"@).push(
                "    fn table_mut(&mut self) -> &mut Vec<u32>;"@,
            )
        } else {
            o2
        };
        match import_methods(o3, self.imports, self.kinds, self.imports.len()) {
            Err(e) => Err(e),
            Ok(o4) => match global_methods(
                o4,
                imported_globals,
                self.kinds,
                imported_globals.len(),
            ) {
                Err(e) => Err(e),
                Ok(o5) => match self.resolve_methods(o5, sigs) {
                    Err(e) => Err(e),
                    Ok(o6) => Ok(o6.push("}"@)),
                },
            },
        }
    }
}

proof fn lemma_imports_fail(
    out: Seq<Seq<char>>,
    imports: Seq<ImportV>,
    kinds: Seq<KindV>,
    i: nat,
    n: nat,
)
    requires
        i <= n,
        import_methods(out, imports, kinds, i) is Err,
    ensures
        import_methods(out, imports, kinds, n) == import_methods(out, imports, kinds, i),
    decreases n - i,
{
    if i < n {
        lemma_imports_fail(out, imports, kinds, i, (n - 1) as nat);
    }
}

proof fn lemma_globals_fail(
    out: Seq<Seq<char>>,
    globals: Seq<ImportedGlobalInfo>,
    kinds: Seq<KindV>,
    i: nat,
    n: nat,
)
    requires
        i <= n,
        global_methods(out, globals, kinds, i) is Err,
    ensures
        global_methods(out, globals, kinds, n) == global_methods(out, globals, kinds, i),
    decreases n - i,
{
    if i < n {
        lemma_globals_fail(out, globals, kinds, i, (n - 1) as nat);
    }
}

proof fn lemma_resolves_fail(c: CtxV, out: Seq<Seq<char>>, sigs: Seq<u32>, k: int)
    requires
        0 <= k <= sigs.len(),
        c.resolve_methods(out, sigs.take(k)) is Err,
    ensures
        c.resolve_methods(out, sigs) == c.resolve_methods(out, sigs.take(k)),
    decreases sigs.len() - k,
{
    if k < sigs.len() {
        assert(sigs.take(k + 1).drop_last() =~= sigs.take(k));
        lemma_resolves_fail(c, out, sigs, k + 1);
    } else {
        assert(sigs.take(k) =~= sigs);
    }
}

/// The trait method of one import. A recognised WASI import is a native inherent
/// method, not a host trait method; it is skipped while `import{j}` stays aligned
/// to the absolute import index used by calls.
fn import_line(lines: &mut Lines, im: &ImportInfo, j: usize, kinds: &Vec<CompositeKind>) -> (r: Result<
    (),
    TranspileError,
>)
    ensures
        lines_result(
            r,
            final(lines)@,
            import_method(old(lines)@, im@, j as nat, kinds_view(kinds@)),
        ),
{
    if im.wasi.is_some() {
        return Ok(());
    }
    let params = param_list("&mut self", "a", &im.params, kinds)?;
    if im.results.len() > 1 {
        return Err(no_support("multi-value import result"));
    }
    let ret = return_ty(&im.results, kinds)?;
    let arrow_src = arrow(&ret);
    lines.add(Buf::lit("    fn import").n(j as u64).s("(").s(&params).s(")").s(&arrow_src).s(";")
        .end());
    Ok(())
}

fn import_lines(lines: &mut Lines, imports: &Vec<ImportInfo>, kinds: &Vec<CompositeKind>) -> (r: Result<
    (),
    TranspileError,
>)
    ensures
        lines_result(
            r,
            final(lines)@,
            import_methods(
                old(lines)@,
                crate::codegen::context::imports_view(imports@),
                kinds_view(kinds@),
                imports@.len(),
            ),
        ),
{
    let ghost start = lines@;
    let ghost all = crate::codegen::context::imports_view(imports@);
    let mut j: usize = 0;
    while j < imports.len()
        invariant
            j <= imports@.len(),
            start == old(lines)@,
            all == crate::codegen::context::imports_view(imports@),
            import_methods(start, all, kinds_view(kinds@), j as nat) == Ok::<
                Seq<Seq<char>>,
                FailV,
            >(lines@),
        decreases imports@.len() - j,
    {
        match import_line(lines, &imports[j], j, kinds) {
            Ok(()) => {},
            Err(e) => {
                proof {
                    lemma_imports_fail(
                        start,
                        all,
                        kinds_view(kinds@),
                        (j + 1) as nat,
                        imports@.len(),
                    );
                }
                return Err(e);
            },
        }
        j += 1;
    }
    Ok(())
}

/// Each imported global gets a getter; a mutable one also gets a setter.
fn global_lines(
    lines: &mut Lines,
    globals: &Vec<ImportedGlobalInfo>,
    kinds: &Vec<CompositeKind>,
) -> (r: Result<(), TranspileError>)
    ensures
        lines_result(
            r,
            final(lines)@,
            global_methods(old(lines)@, globals@, kinds_view(kinds@), globals@.len()),
        ),
{
    let ghost start = lines@;
    let mut k: usize = 0;
    while k < globals.len()
        invariant
            k <= globals@.len(),
            start == old(lines)@,
            global_methods(start, globals@, kinds_view(kinds@), k as nat) == Ok::<
                Seq<Seq<char>>,
                FailV,
            >(lines@),
        decreases globals@.len() - k,
    {
        let g = globals[k];
        match rust_type(g.ty, kinds) {
            Ok(rty) => {
                lines.add(Buf::lit("    fn get_global").n(k as u64).s("(&self) -> ").s(rty).s(";")
                    .end());
                if g.mutable {
                    lines.add(Buf::lit("    fn set_global").n(k as u64).s("(&mut self, v: ").s(rty)
                        .s(");").end());
                }
            },
            Err(e) => {
                proof {
                    lemma_globals_fail(
                        start,
                        globals@,
                        kinds_view(kinds@),
                        (k + 1) as nat,
                        globals@.len(),
                    );
                }
                return Err(e);
            },
        }
        k += 1;
    }
    Ok(())
}

impl<'a> ModuleCtx<'a> {
    fn resolve_line(&self, lines: &mut Lines, ti: u32) -> (r: Result<(), TranspileError>)
        ensures
            lines_result(r, final(lines)@, self@.resolve_method(old(lines)@, ti)),
    {
        if ti as usize >= self.types.len() {
            return Err(no_support("call_indirect: unknown type"));
        }
        let sig = &self.types[ti as usize];
        assert(self@.types[ti as int] == sig@);
        let ret = return_ty(&sig.results, self.type_kinds)?;
        let arrow_src = arrow(&ret);
        // Underscore the parameters: the default body ignores them, and an
        // override is free to rename them.
        let params = param_list("&mut self, _slot: u32", "_a", &sig.params, self.type_kinds)?;
        lines.add(
            Buf::lit("    fn call_ref_t").n(ti as u64).s("(").s(&params).s(")").s(&arrow_src)
                .s(" { panic!(\"unresolved external funcref\") }").end(),
        );
        Ok(())
    }

    /// One `call_ref_t{ti}` per `call_indirect` signature, resolving an outside
    /// funcref handle (a high-bit-tagged table entry) to another instance's
    /// function. It defaults to a trap so hosts that never place an outside handle
    /// need not implement it; a host wanting cross-instance dispatch overrides it.
    /// The `slot` is the handle with its tag bit already stripped.
    fn resolve_lines(&self, lines: &mut Lines, sigs: &Vec<u32>) -> (r: Result<(), TranspileError>)
        ensures
            lines_result(r, final(lines)@, self@.resolve_methods(old(lines)@, sigs@)),
    {
        let ghost start = lines@;
        let mut i: usize = 0;
        while i < sigs.len()
            invariant
                i <= sigs@.len(),
                start == old(lines)@,
                self@.resolve_methods(start, sigs@.take(i as int)) == Ok::<Seq<Seq<char>>, FailV>(
                    lines@,
                ),
            decreases sigs@.len() - i,
        {
            assert(sigs@.take(i + 1).drop_last() =~= sigs@.take(i as int));
            match self.resolve_line(lines, sigs[i]) {
                Ok(()) => {},
                Err(e) => {
                    proof {
                        lemma_resolves_fail(self@, start, sigs@, i + 1);
                    }
                    return Err(e);
                },
            }
            i += 1;
        }
        assert(sigs@.take(sigs@.len() as int) =~= sigs@);
        Ok(())
    }

    /// The `pub trait Imports` declaration: the host's memory and table (lent for
    /// loads/stores/grow and for get/set/size/grow and indirect calls), one
    /// `import{j}` method per imported function, taking `&mut self` since a host
    /// call may have side effects, and the imported globals.
    pub fn import_trait_lines(
        &self,
        lines: &mut Lines,
        imported_globals: &Vec<ImportedGlobalInfo>,
        mem_imported: bool,
        table_imported: bool,
        sigs: &Vec<u32>,
    ) -> (r: Result<(), TranspileError>)
        ensures
            lines_result(
                r,
                final(lines)@,
                self@.imports_trait(
                    old(lines)@,
                    imported_globals@,
                    mem_imported,
                    table_imported,
                    sigs@,
                ),
            ),
    {
        lines.lit("pub trait Imports {");
        if mem_imported {
            lines.lit("    fn memory(&self) -> &[u8];");
            lines.lit("    fn memory_mut(&mut self) -> &mut Vec<u8>;");
        }
        if table_imported {
            lines.lit("    fn table(&self) -> &[u32];");
            lines.lit("    fn table_mut(&mut self) -> &mut Vec<u32>;");
        }
        import_lines(lines, self.imports, self.type_kinds)?;
        global_lines(lines, imported_globals, self.type_kinds)?;
        self.resolve_lines(lines, sigs)?;
        lines.lit("}");
        Ok(())
    }
}

} // verus!
