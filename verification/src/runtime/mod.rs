//! The runtime: struct instances over the bytes of a framed file, read field
//! by field on demand.
//!
//! A [`Blend`] owns the framed file. It hands out an [`Instance`] for each
//! root block; the fields of an instance lead on to the other structs of the
//! file.

pub mod instance;
pub mod list;
pub mod structs;
pub mod template;

pub use instance::{Instance, InstanceDataFormat, PointerInfo};
pub use template::FieldTemplate;

use crate::parsers::blend::{blend_of, Block, BlockView, RawBlend, RawBlendView};
use crate::parsers::BlendParseError;
use instance::{DataView, InstanceView};
use list::{all_of, instance_views};
use structs::{instance_of, make_instance};
use vstd::prelude::*;

verus! {

/// A `.blend` file, ready to be read.
pub struct Blend {
    /// The header, the blocks and the DNA of the file.
    pub blend: RawBlend,
}

/// Whether `block` is a root block whose code is `code`.
pub open spec fn has_code(block: BlockView, code: [u8; 2]) -> bool {
    block matches BlockView::Principal { code: own, .. } && own@ == code@
}

/// The instances of the root blocks among the first `n` blocks of a file, in
/// the order of the file. There are none if one of these root blocks has no
/// struct with a layout.
pub open spec fn roots(file: RawBlendView, n: nat) -> Option<Seq<InstanceView>>
    decreases n,
{
    if n == 0 {
        Some(Seq::empty())
    } else {
        match roots(file, (n - 1) as nat) {
            Some(before) => if file.blocks[n - 1] is Principal {
                match instance_of(
                    file,
                    file.blocks[n - 1].dna_index() as int,
                    DataView::Block(file.blocks[n - 1]),
                ) {
                    Some(instance) => Some(before.push(instance)),
                    None => None,
                }
            } else {
                Some(before)
            },
            None => None,
        }
    }
}

/// The instances of the root blocks with the code `code` among the first `n`
/// blocks of a file, in the order of the file. There are none if one of
/// these root blocks holds more or fewer than one struct, or has no struct
/// with a layout.
pub open spec fn roots_with_code(file: RawBlendView, code: [u8; 2], n: nat) -> Option<
    Seq<InstanceView>,
>
    decreases n,
{
    if n == 0 {
        Some(Seq::empty())
    } else {
        match roots_with_code(file, code, (n - 1) as nat) {
            Some(before) => if has_code(file.blocks[n - 1], code) {
                if file.blocks[n - 1].struct_count() != 1 {
                    None
                } else {
                    match instance_of(
                        file,
                        file.blocks[n - 1].dna_index() as int,
                        DataView::Block(file.blocks[n - 1]),
                    ) {
                        Some(instance) => Some(before.push(instance)),
                        None => None,
                    }
                }
            } else {
                Some(before)
            },
            None => None,
        }
    }
}

proof fn lemma_roots_stay_none(file: RawBlendView, k: nat, n: nat)
    requires
        k <= n,
        roots(file, k) is None,
    ensures
        roots(file, n) is None,
    decreases n,
{
    if k < n {
        lemma_roots_stay_none(file, k, (n - 1) as nat);
    }
}

proof fn lemma_roots_with_code_stay_none(file: RawBlendView, code: [u8; 2], k: nat, n: nat)
    requires
        k <= n,
        roots_with_code(file, code, k) is None,
    ensures
        roots_with_code(file, code, n) is None,
    decreases n,
{
    if k < n {
        lemma_roots_with_code_stay_none(file, code, k, (n - 1) as nat);
    }
}

impl Blend {
    /// Frames the bytes of a file, or says why they are no file.
    pub fn from_data(data: &[u8]) -> (r: Result<Blend, BlendParseError>)
        ensures
            match r {
                Ok(blend) => blend_of(data@) == Ok::<RawBlendView, BlendParseError>(blend.blend@)
                    && blend.blend.wf(),
                Err(e) => blend_of(data@) == Err::<RawBlendView, BlendParseError>(e),
            },
    {
        match RawBlend::from_data(data) {
            Ok(blend) => Ok(Blend { blend }),
            Err(e) => Err(e),
        }
    }

    /// Frames the bytes of a file, which must be well formed.
    pub fn new(data: &[u8]) -> (r: Blend)
        requires
            blend_of(data@) is Ok,
        ensures
            blend_of(data@) == Ok::<RawBlendView, BlendParseError>(r.blend@),
            r.blend.wf(),
    {
        match Blend::from_data(data) {
            Ok(blend) => blend,
            Err(_) => vstd::pervasive::unreached(),
        }
    }

    /// An instance for each root block of the file, in the order of the
    /// file, if each of them has a struct with a layout.
    pub fn try_get_all_root_blocks(&self) -> (r: Option<Vec<Instance<'_>>>)
        ensures
            match r {
                Some(instances) => roots(self.blend@, self.blend@.blocks.len()) == Some(
                    instance_views(instances@),
                ) && all_of(instances@, &self.blend),
                None => roots(self.blend@, self.blend@.blocks.len()) is None,
            },
    {
        let mut instances: Vec<Instance<'_>> = Vec::new();
        let mut i: usize = 0;
        assert(instance_views(instances@) =~= Seq::<InstanceView>::empty());
        while i < self.blend.blocks.len()
            invariant
                i <= self.blend.blocks@.len(),
                self.blend@.blocks.len() == self.blend.blocks@.len(),
                all_of(instances@, &self.blend),
                roots(self.blend@, i as nat) == Some(instance_views(instances@)),
            decreases self.blend.blocks@.len() - i,
        {
            let block: &Block = &self.blend.blocks[i];
            assert(self.blend@.blocks[i as int] == block@);
            let ghost before = instance_views(instances@);
            match block {
                Block::Principal { dna_index, .. } => {
                    match make_instance(&self.blend, *dna_index, InstanceDataFormat::Block(block)) {
                        Some(instance) => {
                            instances.push(instance);
                            assert(instance_views(instances@) =~= before.push(instance@));
                        },
                        None => {
                            proof {
                                lemma_roots_stay_none(
                                    self.blend@,
                                    (i + 1) as nat,
                                    self.blend@.blocks.len(),
                                );
                            }
                            return None;
                        },
                    }
                },
                _ => {},
            }
            i += 1;
        }
        Some(instances)
    }

    /// An instance for each root block of the file, in the order of the
    /// file. Only root blocks know their type by themselves; the other
    /// blocks are reached through the fields that point to them.
    ///
    /// Each root block must have a struct with a layout.
    pub fn get_all_root_blocks(&self) -> (r: Vec<Instance<'_>>)
        requires
            roots(self.blend@, self.blend@.blocks.len()) is Some,
        ensures
            roots(self.blend@, self.blend@.blocks.len()) == Some(instance_views(r@)),
            all_of(r@, &self.blend),
    {
        match self.try_get_all_root_blocks() {
            Some(instances) => instances,
            None => vstd::pervasive::unreached(),
        }
    }

    /// An instance for each root block with the code `search_code`, in the
    /// order of the file, if each of them holds one struct that has a
    /// layout.
    pub fn try_get_by_code(&self, search_code: [u8; 2]) -> (r: Option<Vec<Instance<'_>>>)
        ensures
            match r {
                Some(instances) => roots_with_code(
                    self.blend@,
                    search_code,
                    self.blend@.blocks.len(),
                ) == Some(instance_views(instances@)) && all_of(instances@, &self.blend),
                None => roots_with_code(self.blend@, search_code, self.blend@.blocks.len())
                    is None,
            },
    {
        let mut instances: Vec<Instance<'_>> = Vec::new();
        let mut i: usize = 0;
        assert(instance_views(instances@) =~= Seq::<InstanceView>::empty());
        while i < self.blend.blocks.len()
            invariant
                i <= self.blend.blocks@.len(),
                self.blend@.blocks.len() == self.blend.blocks@.len(),
                all_of(instances@, &self.blend),
                roots_with_code(self.blend@, search_code, i as nat) == Some(
                    instance_views(instances@),
                ),
            decreases self.blend.blocks@.len() - i,
        {
            let block: &Block = &self.blend.blocks[i];
            assert(self.blend@.blocks[i as int] == block@);
            let ghost before = instance_views(instances@);
            match block {
                Block::Principal { code, dna_index, data, .. } => {
                    let same: bool = code[0] == search_code[0] && code[1] == search_code[1];
                    proof {
                        if same {
                            assert(code@ =~= search_code@);
                        }
                    }
                    if same {
                        let made = if data.count == 1 {
                            make_instance(&self.blend, *dna_index, InstanceDataFormat::Block(block))
                        } else {
                            None
                        };
                        match made {
                            Some(instance) => {
                                instances.push(instance);
                                assert(instance_views(instances@) =~= before.push(instance@));
                            },
                            None => {
                                proof {
                                    lemma_roots_with_code_stay_none(
                                        self.blend@,
                                        search_code,
                                        (i + 1) as nat,
                                        self.blend@.blocks.len(),
                                    );
                                }
                                return None;
                            },
                        }
                    }
                },
                _ => {},
            }
            i += 1;
        }
        Some(instances)
    }

    /// An instance for each root block with the code `search_code`: `OB` for
    /// the objects of the file, `ME` for the meshes, `MA` for the materials
    /// and so on.
    ///
    /// Each of these blocks must hold one struct that has a layout.
    pub fn get_by_code(&self, search_code: [u8; 2]) -> (r: Vec<Instance<'_>>)
        requires
            roots_with_code(self.blend@, search_code, self.blend@.blocks.len()) is Some,
        ensures
            roots_with_code(self.blend@, search_code, self.blend@.blocks.len()) == Some(
                instance_views(r@),
            ),
            all_of(r@, &self.blend),
    {
        match self.try_get_by_code(search_code) {
            Some(instances) => instances,
            None => vstd::pervasive::unreached(),
        }
    }
}

} // verus!
