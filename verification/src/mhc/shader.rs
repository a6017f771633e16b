//! Compute shaders: loading, validation and caching.

use crate::id_map::IdMap;
use crate::name_map::NameMap;
use std::sync::Arc;
use vstd::prelude::*;
use vstd::string::StringExecFns;

verus! {

/// Handle of a loaded shader.
#[derive(Clone, Copy, Debug, PartialEq, Eq, Structural)]
pub struct ShaderHandle(pub u64);

impl ShaderHandle {
    /// The handle of no shader.
    pub fn invalid() -> (h: Self)
        ensures
            h == ShaderHandle(0),
    {
        ShaderHandle(0)
    }
}

/// Formats of shader code.
#[derive(Clone, Copy, Debug, PartialEq, Eq, Structural)]
pub enum ShaderFormat {
    /// SPIR-V.
    SpirV,
    /// Intermediate representation of this subsystem.
    MhcIR,
    /// Code of one GPU.
    Native,
}

/// Kind of a resource.
#[derive(Clone, Copy, Debug, PartialEq, Eq, Structural)]
pub enum BindingKind {
    /// Buffer that can be read and written.
    StorageBuffer,
    /// Buffer that can be read.
    UniformBuffer,
    /// Texture that can be read and written.
    StorageImage,
    /// Texture that can be read with filtering.
    SampledImage,
}

/// A resource that a shader expects.
#[derive(Clone, Copy, Debug, PartialEq, Eq, Structural)]
pub struct BindingDescriptor {
    /// Slot.
    pub binding: u32,
    /// Kind.
    pub kind: BindingKind,
    /// The shader writes to it.
    pub writable: bool,
}

/// A loaded shader.
pub struct ShaderModule {
    /// Handle.
    pub handle: ShaderHandle,
    /// Name.
    pub name: String,
    /// Format of the code.
    pub format: ShaderFormat,
    /// Code.
    pub bytecode: Vec<u8>,
    /// Name of the entry point.
    pub entry_point: String,
    /// Size of a workgroup.
    pub workgroup_size: [u32; 3],
    /// Resources.
    pub bindings: Vec<BindingDescriptor>,
    /// Shared memory in bytes.
    pub shared_memory_size: u32,
}

/// Source of shader handles. The first handle is one.
pub struct HandleSource {
    next: u64,
}

impl View for HandleSource {
    type V = u64;

    closed spec fn view(&self) -> u64 {
        self.next
    }
}

impl HandleSource {
    /// A source that has given out no handle.
    pub fn new() -> (s: Self)
        ensures
            s@ == 1,
    {
        HandleSource { next: 1 }
    }

    /// Gives out a handle.
    pub fn next_handle(&mut self) -> (h: ShaderHandle)
        ensures
            h == ShaderHandle(old(self)@),
            final(self)@ == old(self)@.wrapping_add(1),
    {
        let h = ShaderHandle(self.next);
        self.next = self.next.wrapping_add(1);
        h
    }
}

/// What a source of handles gives out after it has given out `n`.
pub open spec fn handle_after(n: nat) -> u64
    decreases n,
{
    if n == 0 {
        1
    } else {
        handle_after((n - 1) as nat).wrapping_add(1)
    }
}

proof fn lemma_handle_after(n: nat)
    requires
        n < u64::MAX,
    ensures
        handle_after(n) == n + 1,
    decreases n,
{
    if n > 0 {
        lemma_handle_after((n - 1) as nat);
    }
}

/// No handle is given out twice, and never that of no shader, as long as the counter does
/// not wrap around.
pub proof fn no_handle_is_given_twice(i: nat, j: nat)
    requires
        i < j < u64::MAX,
    ensures
        handle_after(i) != handle_after(j),
        handle_after(i) != 0,
        handle_after(j) != 0,
{
    lemma_handle_after(i);
    lemma_handle_after(j);
}

/// Least size of a SPIR-V module: the header of five words.
pub const SPIRV_HEADER_SIZE: usize = 20;

/// The code begins with the SPIR-V magic number in little-endian order.
pub open spec fn has_magic(code: Seq<u8>) -> bool {
    code[0] == 0x03 && code[1] == 0x02 && code[2] == 0x23 && code[3] == 0x07
}

/// Major number of the SPIR-V versions that are known.
pub const SPIRV_MAJOR: u8 = 1;

/// Greatest minor number of the SPIR-V versions that are known.
pub const SPIRV_MAX_MINOR: u8 = 6;

/// The version in the header lies between 1.0 and 1.6. Its word holds the major number
/// in the third byte and the minor number in the second, and zero in the others.
pub open spec fn has_known_version(code: Seq<u8>) -> bool {
    code[4] == 0 && code[5] <= SPIRV_MAX_MINOR && code[6] == SPIRV_MAJOR && code[7] == 0
}

/// Why SPIR-V code is refused, if it is.
pub open spec fn spirv_error(code: Seq<u8>) -> Option<Seq<char>> {
    if code.len() < SPIRV_HEADER_SIZE {
        Some("SPIR-V too short: need at least 20 bytes"@)
    } else if !has_magic(code) {
        Some("invalid SPIR-V magic number"@)
    } else if !has_known_version(code) {
        Some("unsupported SPIR-V version"@)
    } else {
        None
    }
}

/// Number of invocations of a workgroup.
pub open spec fn invocations(size: Seq<u32>) -> int {
    size[0] * size[1] * size[2]
}

impl ShaderModule {
    /// Makes a shader from SPIR-V code.
    pub fn from_spirv(
        handles: &mut HandleSource,
        name: &str,
        bytecode: Vec<u8>,
        entry_point: &str,
        workgroup_size: [u32; 3],
        bindings: Vec<BindingDescriptor>,
    ) -> (m: Self)
        ensures
            final(handles)@ == old(handles)@.wrapping_add(1),
            m.handle == ShaderHandle(old(handles)@),
            m.name@ == name@,
            m.format == ShaderFormat::SpirV,
            m.bytecode == bytecode,
            m.entry_point@ == entry_point@,
            m.workgroup_size == workgroup_size,
            m.bindings == bindings,
            m.shared_memory_size == 0,
    {
        let handle = handles.next_handle();
        ShaderModule {
            handle,
            name: String::from_str(name),
            format: ShaderFormat::SpirV,
            bytecode,
            entry_point: String::from_str(entry_point),
            workgroup_size,
            bindings,
            shared_memory_size: 0,
        }
    }

    /// Checks the size, the magic number and the version of SPIR-V code.
    pub fn validate_spirv(bytecode: &[u8]) -> (r: Result<(), &'static str>)
        ensures
            match spirv_error(bytecode@) {
                Some(m) => r matches Err(e) && e@ == m,
                None => r is Ok,
            },
    {
        if bytecode.len() < SPIRV_HEADER_SIZE {
            return Err("SPIR-V too short: need at least 20 bytes");
        }
        if bytecode[0] != 0x03 || bytecode[1] != 0x02 || bytecode[2] != 0x23 || bytecode[3] != 0x07 {
            return Err("invalid SPIR-V magic number");
        }
        if bytecode[4] != 0 || bytecode[5] > SPIRV_MAX_MINOR || bytecode[6] != SPIRV_MAJOR
            || bytecode[7] != 0 {
            return Err("unsupported SPIR-V version");
        }
        Ok(())
    }

    /// Number of invocations of a workgroup.
    pub fn workgroup_invocations(&self) -> (n: u32)
        requires
            self.workgroup_size@[0] * self.workgroup_size@[1] <= u32::MAX,
            invocations(self.workgroup_size@) <= u32::MAX,
        ensures
            n == invocations(self.workgroup_size@),
    {
        let x: u32 = self.workgroup_size[0];
        let y: u32 = self.workgroup_size[1];
        let z: u32 = self.workgroup_size[2];
        assert(x * y >= 0) by (nonlinear_arith);
        assert(x * y * z >= 0) by (nonlinear_arith);
        x * y * z
    }
}

/// What a shader cache holds.
#[verifier::ext_equal]
pub struct CacheState {
    /// Shaders by handle.
    pub by_handle: Map<u64, Arc<ShaderModule>>,
    /// Handles by name.
    pub by_name: Map<Seq<char>, ShaderHandle>,
}

impl CacheState {
    /// The cache after a shader was added.
    pub open spec fn inserted(self, m: Arc<ShaderModule>) -> CacheState {
        CacheState {
            by_handle: self.by_handle.insert(m.handle.0, m),
            by_name: self.by_name.insert(m.name@, m.handle),
        }
    }

    /// The shader with a name.
    pub open spec fn named(self, name: Seq<char>) -> Option<Arc<ShaderModule>> {
        if self.by_name.contains_key(name) && self.by_handle.contains_key(self.by_name[name].0) {
            Some(self.by_handle[self.by_name[name].0])
        } else {
            None
        }
    }

    /// Every shader has a handle that was given out before the handle `next`.
    pub open spec fn handles_precede(self, next: u64) -> bool {
        forall|h: u64| #[trigger] self.by_handle.contains_key(h) ==> 0 < h < next
    }

    /// The cache without a shader. Its name goes too, unless it stands for another one.
    pub open spec fn removed(self, handle: ShaderHandle) -> CacheState {
        if self.by_handle.contains_key(handle.0) {
            let name = self.by_handle[handle.0].name@;
            CacheState {
                by_handle: self.by_handle.remove(handle.0),
                by_name: if self.by_name.contains_key(name) && self.by_name[name] == handle {
                    self.by_name.remove(name)
                } else {
                    self.by_name
                },
            }
        } else {
            self
        }
    }
}

/// Loaded shaders by handle and by name.
pub struct ShaderCache {
    by_handle: IdMap<Arc<ShaderModule>>,
    by_name: NameMap<ShaderHandle>,
}

impl View for ShaderCache {
    type V = CacheState;

    closed spec fn view(&self) -> CacheState {
        CacheState { by_handle: self.by_handle@, by_name: self.by_name@ }
    }
}

impl ShaderCache {
    /// Both maps are well formed.
    pub closed spec fn wf(&self) -> bool {
        self.by_handle.wf() && self.by_name.wf()
    }

    /// An empty cache.
    pub fn new() -> (c: Self)
        ensures
            c.wf(),
            c@ == (CacheState { by_handle: Map::empty(), by_name: Map::empty() }),
    {
        ShaderCache { by_handle: IdMap::new(), by_name: NameMap::new() }
    }

    /// Adds a shader.
    pub fn insert(&mut self, shader: ShaderModule) -> (r: Arc<ShaderModule>)
        requires
            old(self).wf(),
        ensures
            final(self).wf(),
            *r == shader,
            final(self)@ == old(self)@.inserted(r),
    {
        let handle = shader.handle;
        let name = shader.name.clone();
        let arc = Arc::new(shader);
        self.by_handle.insert(handle.0, arc.clone());
        self.by_name.insert(name, handle);
        arc
    }

    /// The shader with a handle.
    pub fn get(&self, handle: ShaderHandle) -> (r: Option<Arc<ShaderModule>>)
        requires
            self.wf(),
        ensures
            r == if self@.by_handle.contains_key(handle.0) {
                Some(self@.by_handle[handle.0])
            } else {
                None
            },
    {
        match self.by_handle.get(handle.0) {
            Some(arc) => Some(arc.clone()),
            None => None,
        }
    }

    /// The shader with a name.
    pub fn get_by_name(&self, name: &str) -> (r: Option<Arc<ShaderModule>>)
        requires
            self.wf(),
        ensures
            r == self@.named(name@),
    {
        match self.by_name.get(name) {
            Some(handle) => self.get(*handle),
            None => None,
        }
    }

    /// Removes a shader, and its name where that stands for it.
    pub fn remove(&mut self, handle: ShaderHandle)
        requires
            old(self).wf(),
        ensures
            final(self).wf(),
            final(self)@ == old(self)@.removed(handle),
    {
        match self.by_handle.remove(handle.0) {
            Some(shader) => {
                let named = match self.by_name.get(shader.name.as_str()) {
                    Some(h) => *h == handle,
                    None => false,
                };
                if named {
                    self.by_name.remove(shader.name.as_str());
                }
            },
            None => {
                assert(self@.by_handle =~= old(self)@.by_handle);
            },
        }
    }

    /// Number of shaders.
    pub fn len(&self) -> (n: usize)
        requires
            self.wf(),
        ensures
            n == self@.by_handle.dom().len(),
            self@.by_handle.dom().finite(),
    {
        self.by_handle.len()
    }

    /// Whether there is no shader.
    pub fn is_empty(&self) -> (b: bool)
        requires
            self.wf(),
        ensures
            b == self@.by_handle.dom().is_empty(),
    {
        self.by_handle.is_empty()
    }
}

impl Default for ShaderCache {
    fn default() -> (c: Self)
        ensures
            c.wf(),
            c@ == (CacheState { by_handle: Map::empty(), by_name: Map::empty() }),
    {
        Self::new()
    }
}

/// Validates SPIR-V code, makes a shader of it and adds it to the cache.
pub fn load_spirv(
    cache: &mut ShaderCache,
    handles: &mut HandleSource,
    name: &str,
    bytecode: Vec<u8>,
    entry_point: &str,
    workgroup_size: [u32; 3],
    bindings: Vec<BindingDescriptor>,
) -> (r: Result<Arc<ShaderModule>, &'static str>)
    requires
        old(cache).wf(),
    ensures
        final(cache).wf(),
        r is Ok <==> spirv_error(bytecode@) is None,
        r matches Err(e) ==> {
            &&& spirv_error(bytecode@) == Some(e@)
            &&& final(cache)@ == old(cache)@
            &&& final(handles)@ == old(handles)@
        },
        r matches Ok(m) ==> {
            &&& m.handle == ShaderHandle(old(handles)@)
            &&& m.name@ == name@
            &&& m.format == ShaderFormat::SpirV
            &&& m.bytecode == bytecode
            &&& m.entry_point@ == entry_point@
            &&& m.workgroup_size == workgroup_size
            &&& m.bindings == bindings
            &&& m.shared_memory_size == 0
            &&& final(cache)@ == old(cache)@.inserted(m)
            &&& final(handles)@ == old(handles)@.wrapping_add(1)
        },
{
    match ShaderModule::validate_spirv(bytecode.as_slice()) {
        Ok(_) => {},
        Err(e) => {
            return Err(e);
        },
    }
    let module = ShaderModule::from_spirv(
        handles,
        name,
        bytecode,
        entry_point,
        workgroup_size,
        bindings,
    );
    Ok(cache.insert(module))
}

/// A shader can be found by its handle and by its name after it was added, and not
/// after it was removed.
pub proof fn lookup_follows_insert_and_remove(c: CacheState, m: Arc<ShaderModule>)
    ensures
        c.inserted(m).by_handle.contains_key(m.handle.0),
        c.inserted(m).by_handle[m.handle.0] == m,
        c.inserted(m).named(m.name@) == Some(m),
        c.inserted(m).removed(m.handle).named(m.name@) is None,
        !c.inserted(m).removed(m.handle).by_handle.contains_key(m.handle.0),
{
}

/// A shader that is loaded has a handle that no cached shader has and that is not the one
/// of no shader, as long as the counter does not wrap around: cached shaders have handles
/// that were given out before, and loading and removing keep it so.
pub proof fn loaded_shader_has_a_new_handle(
    c: CacheState,
    m: Arc<ShaderModule>,
    next: u64,
    removed: ShaderHandle,
)
    requires
        c.handles_precede(next),
        0 < next < u64::MAX,
        m.handle == ShaderHandle(next),
    ensures
        (CacheState { by_handle: Map::empty(), by_name: Map::empty() }).handles_precede(1),
        m.handle != ShaderHandle(0),
        !c.by_handle.contains_key(m.handle.0),
        c.inserted(m).handles_precede(next.wrapping_add(1)),
        c.removed(removed).handles_precede(next),
{
}

/// Removing a shader leaves every other one cached, and found by a name that stands
/// for it.
pub proof fn remove_leaves_other_shaders(c: CacheState, handle: ShaderHandle, other: u64, name: Seq<char>)
    requires
        other != handle.0,
    ensures
        c.removed(handle).by_handle.contains_key(other) == c.by_handle.contains_key(other),
        c.by_handle.contains_key(other) ==> c.removed(handle).by_handle[other] == c.by_handle[other],
        c.by_name.contains_key(name) && c.by_name[name].0 == other ==> c.removed(handle).named(name)
            == c.named(name),
{
}

/// Adding a shader leaves those with another handle and another name as they are.
pub proof fn insert_leaves_other_shaders(c: CacheState, m: Arc<ShaderModule>, name: Seq<char>)
    requires
        name != m.name@,
        c.by_name.contains_key(name) ==> c.by_name[name].0 != m.handle.0,
    ensures
        c.inserted(m).named(name) == c.named(name),
{
}

/// Bytecode is accepted exactly if it has room for a header of five words, starts with the
/// word 0x07230203 and names a version from 1.0 to 1.6, all with the least byte first.
pub proof fn accepted_bytecode_has_its_header(code: Seq<u8>)
    ensures
        spirv_error(code) is None <==> code.len() >= 20 && code[0] + 0x100 * code[1] + 0x1_0000
            * code[2] + 0x100_0000 * code[3] == 0x0723_0203 && (0x1_0000 <= code[4] + 0x100
            * code[5] + 0x1_0000 * code[6] + 0x100_0000 * code[7] <= 0x1_0600 && code[4] == 0),
        code.len() < 20 ==> spirv_error(code) == Some("SPIR-V too short: need at least 20 bytes"@),
        code.len() >= 20 && code[0] + 0x100 * code[1] + 0x1_0000 * code[2] + 0x100_0000 * code[3]
            != 0x0723_0203 ==> spirv_error(code) == Some("invalid SPIR-V magic number"@),
{
}

} // verus!
