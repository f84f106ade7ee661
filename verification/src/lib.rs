pub mod bindings;
pub mod builtins;
pub mod compiler;
pub mod config;
pub mod error;
pub mod heap;
pub mod link;
pub mod load;
pub mod module;
pub mod patch;

pub use crate::bindings::Bindings;
pub use crate::builtins::Builtins;
pub use crate::compiler::Compiler;
pub use crate::compiler::OptLevel;
pub use crate::error::LucetcError;
pub use crate::heap::HeapSettings;
pub use crate::load::read_module;
pub use crate::module::WasmModule;
pub use crate::patch::patch_module;

use crate::bindings::compatible;
use crate::bindings::env_map_of;
use crate::config::apply_config;
use crate::config::heap_of;
use crate::config::ConfigOp;
use crate::config::DriverConfig;
use crate::load::import_of;
use crate::load::wasm_decode;
use crate::module::ModuleView;
use crate::patch::patch_delta;
use crate::patch::patchable;
use crate::patch::patched_import;
use crate::patch::sig_matches;
use vstd::prelude::*;

verus! {

/// The compilation driver: a staged builder holding the ingested module, the
/// bindings registry, the optimization level and the heap settings.
///
/// Every configuration operation is offered in a consuming (`self -> Self`)
/// and a mutating (`&mut self`) form over one shared routine, so the two
/// cannot diverge. Configuration errors leave the driver usable; the
/// terminal operations consume the driver, so a finished driver is
/// unreachable by construction.
pub struct Lucetc {
    module: WasmModule,
    bindings: Bindings,
    opt_level: OptLevel,
    heap: HeapSettings,
}

impl Lucetc {
    /// The driver's bindings registry is well-formed.
    pub open(crate) spec fn wf(self) -> bool {
        self.bindings.wf()
    }

    /// The driver's configuration state.
    pub open(crate) spec fn config(self) -> DriverConfig {
        DriverConfig {
            bindings: self.bindings@,
            opt_level: self.opt_level,
            min_reserved_size: self.heap.min_reserved_size,
            max_reserved_size: self.heap.max_reserved_size,
            guard_size: self.heap.guard_size,
        }
    }

    /// The driver's current module.
    pub open(crate) spec fn module_view(self) -> ModuleView {
        self.module@
    }

    /// Ingests `bytes` as a Wasm module and starts a driver over it with an
    /// empty bindings registry and default optimization level and heap
    /// settings. Bytes that do not decode are rejected with `ModuleDecode`.
    pub fn new(bytes: &Vec<u8>) -> (r: Result<Lucetc, LucetcError>)
        ensures
            match r {
                Ok(d) => {
                    &&& d.wf()
                    &&& wasm_decode(bytes@) is Some
                    &&& d.module_view().bytes == bytes@
                    &&& d.module_view().exports == wasm_decode(bytes@).unwrap().1
                    &&& d.module_view().imports.len() == wasm_decode(bytes@).unwrap().0.len()
                    &&& forall|i: int|
                        0 <= i < d.module_view().imports.len()
                            ==> #[trigger] d.module_view().imports[i] == import_of(
                            wasm_decode(bytes@).unwrap().0[i],
                        )
                    &&& d.config() == (DriverConfig {
                        bindings: Map::<(Seq<char>, Seq<char>), Seq<char>>::empty(),
                        opt_level: OptLevel::NoOpt,
                        min_reserved_size: crate::heap::DEFAULT_MIN_RESERVED_SIZE,
                        max_reserved_size: crate::heap::DEFAULT_MAX_RESERVED_SIZE,
                        guard_size: crate::heap::DEFAULT_GUARD_SIZE,
                    })
                },
                Err(e) => {
                    &&& wasm_decode(bytes@) is None
                    &&& e is ModuleDecode
                },
            },
    {
        let module = match read_module(bytes) {
            Ok(m) => m,
            Err(e) => {
                return Err(e);
            },
        };
        Ok(
            Lucetc {
                module,
                bindings: Bindings::empty(),
                opt_level: <OptLevel as Default>::default(),
                heap: <HeapSettings as Default>::default(),
            },
        )
    }

    /// Consuming form of `with_bindings`.
    pub fn bindings(self, bindings: Bindings) -> (r: Result<Lucetc, LucetcError>)
        requires
            self.wf(),
            bindings.wf(),
        ensures
            match r {
                Ok(d) => {
                    &&& d.wf()
                    &&& d.module_view() == self.module_view()
                    &&& compatible(self.config().bindings, bindings@)
                    &&& d.config() == apply_config(
                        self.config(),
                        ConfigOp::MergeBindings { b: bindings@ },
                    )
                },
                Err(e) => {
                    &&& !compatible(self.config().bindings, bindings@)
                    &&& (match e {
                        LucetcError::BindingsConflict { namespace, field, existing, incoming } => {
                            &&& self.config().bindings.dom().contains((namespace@, field@))
                            &&& bindings@.dom().contains((namespace@, field@))
                            &&& existing@ == self.config().bindings[(namespace@, field@)]
                            &&& incoming@ == bindings@[(namespace@, field@)]
                            &&& existing@ != incoming@
                        },
                        _ => false,
                    })
                },
            },
    {
        let mut d = self;
        match d.with_bindings(bindings) {
            Ok(()) => Ok(d),
            Err(e) => Err(e),
        }
    }

    /// Merges caller-supplied bindings into the registry.
    ///
    /// Succeeds exactly when the new bindings agree with the registry on
    /// every import name both bind; on a conflict the driver is unchanged
    /// and stays usable.
    pub fn with_bindings(&mut self, bindings: Bindings) -> (r: Result<(), LucetcError>)
        requires
            old(self).wf(),
            bindings.wf(),
        ensures
            final(self).wf(),
            final(self).module_view() == old(self).module_view(),
            final(self).config() == apply_config(
                old(self).config(),
                ConfigOp::MergeBindings { b: bindings@ },
            ),
            match r {
                Ok(()) => compatible(old(self).config().bindings, bindings@),
                Err(e) => {
                    &&& *final(self) == *old(self)
                    &&& !compatible(old(self).config().bindings, bindings@)
                    &&& (match e {
                        LucetcError::BindingsConflict { namespace, field, existing, incoming } => {
                            &&& old(self).config().bindings.dom().contains((namespace@, field@))
                            &&& bindings@.dom().contains((namespace@, field@))
                            &&& existing@ == old(self).config().bindings[(namespace@, field@)]
                            &&& incoming@ == bindings@[(namespace@, field@)]
                            &&& existing@ != incoming@
                        },
                        _ => false,
                    })
                },
            },
    {
        self.bindings.extend(bindings)
    }

    /// Consuming form of `with_opt_level`.
    pub fn opt_level(self, opt_level: OptLevel) -> (r: Lucetc)
        ensures
            r.module_view() == self.module_view(),
            self.wf() ==> r.wf(),
            r.config() == apply_config(self.config(), ConfigOp::SetOptLevel { level: opt_level }),
    {
        let mut d = self;
        d.with_opt_level(opt_level);
        d
    }

    /// Overwrites the optimization level.
    pub fn with_opt_level(&mut self, opt_level: OptLevel)
        ensures
            final(self).module_view() == old(self).module_view(),
            old(self).wf() ==> final(self).wf(),
            final(self).config() == apply_config(
                old(self).config(),
                ConfigOp::SetOptLevel { level: opt_level },
            ),
    {
        self.opt_level = opt_level;
    }

    /// Consuming form of `with_min_reserved_size`.
    pub fn min_reserved_size(self, min_reserved_size: u64) -> (r: Lucetc)
        ensures
            r.module_view() == self.module_view(),
            self.wf() ==> r.wf(),
            r.config() == apply_config(
                self.config(),
                ConfigOp::SetMinReservedSize { size: min_reserved_size },
            ),
    {
        let mut d = self;
        d.with_min_reserved_size(min_reserved_size);
        d
    }

    /// Overwrites the committed linear-memory reservation, in bytes.
    pub fn with_min_reserved_size(&mut self, min_reserved_size: u64)
        ensures
            final(self).module_view() == old(self).module_view(),
            old(self).wf() ==> final(self).wf(),
            final(self).config() == apply_config(
                old(self).config(),
                ConfigOp::SetMinReservedSize { size: min_reserved_size },
            ),
    {
        self.heap.min_reserved_size = min_reserved_size;
    }

    /// Consuming form of `with_max_reserved_size`.
    pub fn max_reserved_size(self, max_reserved_size: u64) -> (r: Lucetc)
        ensures
            r.module_view() == self.module_view(),
            self.wf() ==> r.wf(),
            r.config() == apply_config(
                self.config(),
                ConfigOp::SetMaxReservedSize { size: max_reserved_size },
            ),
    {
        let mut d = self;
        d.with_max_reserved_size(max_reserved_size);
        d
    }

    /// Overwrites the linear-memory growth cap, in bytes.
    pub fn with_max_reserved_size(&mut self, max_reserved_size: u64)
        ensures
            final(self).module_view() == old(self).module_view(),
            old(self).wf() ==> final(self).wf(),
            final(self).config() == apply_config(
                old(self).config(),
                ConfigOp::SetMaxReservedSize { size: max_reserved_size },
            ),
    {
        self.heap.max_reserved_size = max_reserved_size;
    }

    /// Consuming form of `with_guard_size`.
    pub fn guard_size(self, guard_size: u64) -> (r: Lucetc)
        ensures
            r.module_view() == self.module_view(),
            self.wf() ==> r.wf(),
            r.config() == apply_config(self.config(), ConfigOp::SetGuardSize { size: guard_size }),
    {
        let mut d = self;
        d.with_guard_size(guard_size);
        d
    }

    /// Overwrites the guard region size, in bytes.
    pub fn with_guard_size(&mut self, guard_size: u64)
        ensures
            final(self).module_view() == old(self).module_view(),
            old(self).wf() ==> final(self).wf(),
            final(self).config() == apply_config(
                old(self).config(),
                ConfigOp::SetGuardSize { size: guard_size },
            ),
    {
        self.heap.guard_size = guard_size;
    }

    /// Consuming form of `with_builtins`.
    pub fn builtins(self, builtins: &Builtins) -> (r: Result<Lucetc, LucetcError>)
        requires
            self.wf(),
            builtins.wf(),
        ensures
            match r {
                Ok(d) => {
                    &&& d.wf()
                    &&& d.module_view().imports.len() == self.module_view().imports.len()
                    &&& forall|i: int|
                        0 <= i < self.module_view().imports.len()
                            ==> #[trigger] d.module_view().imports[i] == patched_import(
                            self.module_view().imports[i],
                            builtins@,
                        )
                    &&& d.module_view().exports == self.module_view().exports
                    &&& d.module_view().bytes == self.module_view().bytes
                    &&& d.config() == (DriverConfig {
                        bindings: self.config().bindings.union_prefer_right(
                            env_map_of(patch_delta(self.module_view().imports, builtins@)),
                        ),
                        ..self.config()
                    })
                },
                Err(e) => (match e {
                    LucetcError::SignatureMismatch { field, import_sig, builtin_sig } => {
                        &&& builtins@.dom().contains(field@)
                        &&& builtins@[field@].1 == builtin_sig
                        &&& import_sig != Some(builtin_sig)
                        &&& exists|i: int|
                            0 <= i < self.module_view().imports.len() && (
                            #[trigger] self.module_view().imports[i]).resolved is None
                                && self.module_view().imports[i].namespace == "env"@
                                && self.module_view().imports[i].field == field@
                                && self.module_view().imports[i].func_sig == import_sig
                    },
                    LucetcError::BindingsConflict { namespace, field, existing, incoming } => {
                        &&& !compatible(
                            self.config().bindings,
                            env_map_of(patch_delta(self.module_view().imports, builtins@)),
                        )
                        &&& self.config().bindings.dom().contains((namespace@, field@))
                        &&& existing@ == self.config().bindings[(namespace@, field@)]
                        &&& existing@ != incoming@
                    },
                    _ => false,
                }),
            },
    {
        let mut d = self;
        match d.with_builtins(builtins) {
            Ok(()) => Ok(d),
            Err(e) => Err(e),
        }
    }

    /// Applies the builtin patcher to the module and merges the induced
    /// `env` bindings, as one atomic configuration step.
    ///
    /// Succeeds exactly when every patchable import declares its builtin's
    /// signature and the induced bindings agree with the registry; on either
    /// failure (`SignatureMismatch` or `BindingsConflict`) the driver is
    /// unchanged and stays usable, so no caller observes a patched module
    /// without its induced bindings.
    pub fn with_builtins(&mut self, builtins: &Builtins) -> (r: Result<(), LucetcError>)
        requires
            old(self).wf(),
            builtins.wf(),
        ensures
            final(self).wf(),
            match r {
                Ok(()) => {
                    &&& forall|i: int|
                        0 <= i < old(self).module_view().imports.len() && patchable(
                            #[trigger] old(self).module_view().imports[i],
                            builtins@,
                        ) ==> sig_matches(old(self).module_view().imports[i], builtins@)
                    &&& compatible(
                        old(self).config().bindings,
                        env_map_of(patch_delta(old(self).module_view().imports, builtins@)),
                    )
                    &&& final(self).module_view().imports.len() == old(
                        self,
                    ).module_view().imports.len()
                    &&& forall|i: int|
                        0 <= i < old(self).module_view().imports.len()
                            ==> #[trigger] final(self).module_view().imports[i] == patched_import(
                            old(self).module_view().imports[i],
                            builtins@,
                        )
                    &&& final(self).module_view().exports == old(self).module_view().exports
                    &&& final(self).module_view().bytes == old(self).module_view().bytes
                    &&& final(self).config() == (DriverConfig {
                        bindings: old(self).config().bindings.union_prefer_right(
                            env_map_of(patch_delta(old(self).module_view().imports, builtins@)),
                        ),
                        ..old(self).config()
                    })
                },
                Err(e) => {
                    &&& *final(self) == *old(self)
                    &&& (match e {
                        LucetcError::SignatureMismatch { field, import_sig, builtin_sig } => {
                            &&& builtins@.dom().contains(field@)
                            &&& builtins@[field@].1 == builtin_sig
                            &&& import_sig != Some(builtin_sig)
                            &&& exists|i: int|
                                0 <= i < old(self).module_view().imports.len() && (#[trigger] old(
                                    self,
                                ).module_view().imports[i]).resolved is None && old(
                                    self,
                                ).module_view().imports[i].namespace == "env"@ && old(
                                    self,
                                ).module_view().imports[i].field == field@ && old(
                                    self,
                                ).module_view().imports[i].func_sig == import_sig
                        },
                        LucetcError::BindingsConflict { namespace, field, existing, incoming } => {
                            &&& !compatible(
                                old(self).config().bindings,
                                env_map_of(
                                    patch_delta(old(self).module_view().imports, builtins@),
                                ),
                            )
                            &&& old(self).config().bindings.dom().contains((namespace@, field@))
                            &&& existing@ == old(self).config().bindings[(namespace@, field@)]
                            &&& existing@ != incoming@
                        },
                        _ => false,
                    })
                },
            },
    {
        let (newmodule, delta) = match patch_module(&self.module, builtins) {
            Ok(p) => p,
            Err(e) => {
                return Err(e);
            },
        };
        proof {
            crate::patch::lemma_patch_delta_consistent(self.module@.imports, builtins@);
        }
        // The patch delta pairs each field with its builtin's one symbol, so
        // building the env bindings cannot conflict; the branch is dead.
        let env_bindings = match Bindings::env(delta) {
            Ok(b) => b,
            Err(e) => {
                proof {
                    assert(false);
                }
                return Err(e);
            },
        };
        match self.bindings.extend(env_bindings) {
            Ok(()) => {},
            Err(e) => {
                return Err(e);
            },
        }
        self.module = newmodule;
        Ok(())
    }

    /// Serializes the module and assembles the validated compilation unit a
    /// backend turns into a relocatable object file. Consumes the driver.
    ///
    /// Fails with `InvalidHeap` exactly when the configured heap settings
    /// are inconsistent.
    pub fn object_file(self) -> (r: Result<Compiler, LucetcError>)
        requires
            self.wf(),
        ensures
            match r {
                Ok(c) => {
                    &&& heap_of(self.config()).ok()
                    &&& c.module_contents@ == self.module_view().bytes
                    &&& c.opt_level == self.config().opt_level
                    &&& c.bindings@ == self.config().bindings
                    &&& c.bindings.wf()
                    &&& c.heap == heap_of(self.config())
                },
                Err(e) => {
                    &&& !heap_of(self.config()).ok()
                    &&& e == (LucetcError::InvalidHeap {
                        min_reserved_size: self.config().min_reserved_size,
                        max_reserved_size: self.config().max_reserved_size,
                        guard_size: self.config().guard_size,
                    })
                },
            },
    {
        let module_contents = self.module.serialize();
        Compiler::new(module_contents, self.opt_level, &self.bindings, self.heap)
    }

    /// Same prefix as `object_file`, for the backend's per-function textual
    /// IR dump instead of an object. Consumes the driver.
    pub fn clif_ir(self) -> (r: Result<Compiler, LucetcError>)
        requires
            self.wf(),
        ensures
            match r {
                Ok(c) => {
                    &&& heap_of(self.config()).ok()
                    &&& c.module_contents@ == self.module_view().bytes
                    &&& c.opt_level == self.config().opt_level
                    &&& c.bindings@ == self.config().bindings
                    &&& c.bindings.wf()
                    &&& c.heap == heap_of(self.config())
                },
                Err(e) => {
                    &&& !heap_of(self.config()).ok()
                    &&& e == (LucetcError::InvalidHeap {
                        min_reserved_size: self.config().min_reserved_size,
                        max_reserved_size: self.config().max_reserved_size,
                        guard_size: self.config().guard_size,
                    })
                },
            },
    {
        let module_contents = self.module.serialize();
        Compiler::new(module_contents, self.opt_level, &self.bindings, self.heap)
    }

    /// Same prefix as `object_file`, for a shared library: the object it
    /// yields is meant for `link::temp_object_name` inside a scoped
    /// temporary directory, and `link::link_so_command` wraps it. Consumes
    /// the driver.
    pub fn shared_object_file(self) -> (r: Result<Compiler, LucetcError>)
        requires
            self.wf(),
        ensures
            match r {
                Ok(c) => {
                    &&& heap_of(self.config()).ok()
                    &&& c.module_contents@ == self.module_view().bytes
                    &&& c.opt_level == self.config().opt_level
                    &&& c.bindings@ == self.config().bindings
                    &&& c.bindings.wf()
                    &&& c.heap == heap_of(self.config())
                },
                Err(e) => {
                    &&& !heap_of(self.config()).ok()
                    &&& e == (LucetcError::InvalidHeap {
                        min_reserved_size: self.config().min_reserved_size,
                        max_reserved_size: self.config().max_reserved_size,
                        guard_size: self.config().guard_size,
                    })
                },
            },
    {
        let module_contents = self.module.serialize();
        Compiler::new(module_contents, self.opt_level, &self.bindings, self.heap)
    }

    /// Resolves an import name through the driver's registry, as the
    /// backend does while compiling.
    pub fn lookup(&self, namespace: &String, field: &String) -> (r: Option<&String>)
        requires
            self.wf(),
        ensures
            match r {
                Some(sym) => self.config().bindings.dom().contains((namespace@, field@)) && sym@
                    == self.config().bindings[(namespace@, field@)],
                None => !self.config().bindings.dom().contains((namespace@, field@)),
            },
    {
        self.bindings.lookup(namespace, field)
    }

    /// The driver's current module, for inspection.
    pub fn module(&self) -> (r: &WasmModule)
        ensures
            r@ == self.module_view(),
    {
        &self.module
    }
}

} // verus!
