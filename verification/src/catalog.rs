//! Kernels of a loaded device image, by module and function name.
use crate::device::KernelHandle;
use crate::text::same_text;
use vstd::prelude::*;

verus! {

/// One kernel of the image.
#[derive(Debug)]
pub struct KernelEntry {
    pub module: String,
    pub function: String,
    pub handle: KernelHandle,
}

/// The kernels of the image. Of two with the same names the first counts.
#[derive(Debug)]
pub struct KernelCatalog {
    pub entries: Vec<KernelEntry>,
}

/// A kernel that the image lacks.
#[derive(Debug, PartialEq, Eq)]
pub struct KernelMissing {
    pub module: String,
    pub function: String,
}

impl KernelMissing {
    /// The missing kernel has these names.
    pub open spec fn names(&self, module: Seq<char>, function: Seq<char>) -> bool {
        self.module@ == module && self.function@ == function
    }
}

/// First of the first `n` entries with these names.
pub open spec fn find_entry(
    entries: Seq<KernelEntry>,
    module: Seq<char>,
    function: Seq<char>,
    n: nat,
) -> Option<KernelHandle>
    decreases n,
{
    if n == 0 {
        None
    } else {
        match find_entry(entries, module, function, (n - 1) as nat) {
            Some(h) => Some(h),
            None => if entries[n - 1].module@ == module && entries[n - 1].function@ == function {
                Some(entries[n - 1].handle)
            } else {
                None
            },
        }
    }
}

impl KernelCatalog {
    pub open spec fn find(&self, module: Seq<char>, function: Seq<char>) -> Option<KernelHandle> {
        find_entry(self.entries@, module, function, self.entries@.len())
    }

    pub open spec fn find_or_null(&self, module: Seq<char>, function: Seq<char>) -> KernelHandle {
        match self.find(module, function) {
            Some(h) => h,
            None => KernelHandle(0),
        }
    }

    /// The kernel with these names.
    pub fn kernel(&self, module: &str, function: &str) -> (r: Result<KernelHandle, KernelMissing>)
        ensures
            match self.find(module@, function@) {
                Some(h) => r == Ok::<KernelHandle, KernelMissing>(h),
                None => r matches Err(e) && e.names(module@, function@),
            },
    {
        let mut i: usize = 0;
        while i < self.entries.len()
            invariant
                i <= self.entries@.len(),
                find_entry(self.entries@, module@, function@, i as nat) is None,
            decreases self.entries@.len() - i,
        {
            let e: &KernelEntry = &self.entries[i];
            if same_text(e.module.as_str(), module) && same_text(e.function.as_str(), function) {
                proof {
                    lemma_first_entry(
                        self.entries@,
                        module@,
                        function@,
                        (i + 1) as nat,
                        self.entries@.len(),
                    );
                }
                return Ok(e.handle);
            }
            i = i + 1;
        }
        Err(KernelMissing { module: module.to_owned(), function: function.to_owned() })
    }

    /// The kernel with these names, or the null handle.
    pub fn try_kernel(&self, module: &str, function: &str) -> (r: KernelHandle)
        ensures
            r == self.find_or_null(module@, function@),
    {
        match self.kernel(module, function) {
            Ok(h) => h,
            Err(_) => KernelHandle(0),
        }
    }
}

proof fn lemma_first_entry(
    entries: Seq<KernelEntry>,
    module: Seq<char>,
    function: Seq<char>,
    n: nat,
    m: nat,
)
    requires
        n <= m,
        find_entry(entries, module, function, n) is Some,
    ensures
        find_entry(entries, module, function, m) == find_entry(entries, module, function, n),
    decreases m,
{
    if n < m {
        lemma_first_entry(entries, module, function, n, (m - 1) as nat);
    }
}

} // verus!
