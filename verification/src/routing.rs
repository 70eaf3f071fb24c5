//! The routing table: a fixed mapping from lowercase extensions to the
//! category folder a matching file is moved into.

use vstd::prelude::*;

verus! {

/// A destination category. Each category owns one folder under the
/// target directory.
#[derive(Clone, Copy, Debug, PartialEq, Eq, Structural)]
pub enum Category {
    Images,
    Python,
    Cpp,
}

impl Category {
    /// The folder name the category's files are moved into.
    pub open spec fn folder_spec(self) -> Seq<char> {
        match self {
            Category::Images => "images"@,
            Category::Python => "python"@,
            Category::Cpp => "c++"@,
        }
    }

    /// Returns the folder name of this category.
    pub fn folder(self) -> (r: &'static str)
        ensures
            r@ == self.folder_spec(),
    {
        match self {
            Category::Images => "images",
            Category::Python => "python",
            Category::Cpp => "c++",
        }
    }
}

/// The routing table: `png`, `jpg`, `jpeg` belong to `Images`, `py` to
/// `Python`, `cpp` to `Cpp`; every other extension is unmapped.
pub open spec fn route_spec(ext: Seq<char>) -> Option<Category> {
    if ext == "png"@ || ext == "jpg"@ || ext == "jpeg"@ {
        Some(Category::Images)
    } else if ext == "py"@ {
        Some(Category::Python)
    } else if ext == "cpp"@ {
        Some(Category::Cpp)
    } else {
        None
    }
}

/// Looks a lowercase extension up in the routing table.
pub fn route(ext: &Vec<char>) -> (r: Option<Category>)
    ensures
        r == route_spec(ext@),
{
    if crate::extension::chars_eq_str(ext, "png") || crate::extension::chars_eq_str(ext, "jpg")
        || crate::extension::chars_eq_str(ext, "jpeg") {
        Some(Category::Images)
    } else if crate::extension::chars_eq_str(ext, "py") {
        Some(Category::Python)
    } else if crate::extension::chars_eq_str(ext, "cpp") {
        Some(Category::Cpp)
    } else {
        None
    }
}

/// The set of folder names the routing table routes into.
pub open spec fn folder_set() -> Set<Seq<char>> {
    set!["images"@, "python"@, "c++"@]
}

/// Every category, in a fixed order, without repetition; their folders are
/// exactly the destination subdirectories derived from the routing table.
pub fn categories() -> (v: Vec<Category>)
    ensures
        v@ =~= seq![Category::Images, Category::Python, Category::Cpp],
        v@.map_values(|c: Category| c.folder_spec()).to_set() == folder_set(),
{
    let mut v: Vec<Category> = Vec::new();
    v.push(Category::Images);
    v.push(Category::Python);
    v.push(Category::Cpp);
    proof {
        let folders = v@.map_values(|c: Category| c.folder_spec());
        assert(folders[0] == "images"@);
        assert(folders[1] == "python"@);
        assert(folders[2] == "c++"@);
        assert(folders.to_set() =~= folder_set()) by {
            assert forall|f: Seq<char>| folder_set().contains(f) implies folders.to_set().contains(
                f,
            ) by {
                if f == "images"@ {
                    assert(folders.to_set().contains(folders[0]));
                } else if f == "python"@ {
                    assert(folders.to_set().contains(folders[1]));
                } else {
                    assert(folders.to_set().contains(folders[2]));
                }
            }
        }
    }
    v
}

/// Provisioning covers every destination the engine can route to: whatever
/// category the routing table assigns to an extension, that category's folder
/// stands in the provisioned subdirectory set.
pub proof fn lemma_routing_into_provisioned(ext: Seq<char>, dirs: Set<Seq<char>>)
    ensures
        route_spec(ext) matches Some(c) ==> provisioned_dirs(dirs).contains(c.folder_spec()),
{
}

/// The three category folders carry pairwise different names, so the set of
/// destination subdirectories derived from the routing table has exactly one
/// folder per category.
pub proof fn lemma_folders_distinct()
    ensures
        Category::Images.folder_spec() != Category::Python.folder_spec(),
        Category::Images.folder_spec() != Category::Cpp.folder_spec(),
        Category::Python.folder_spec() != Category::Cpp.folder_spec(),
{
    reveal_strlit("images");
    reveal_strlit("python");
    reveal_strlit("c++");
    assert("images"@[0] != "python"@[0]);
    assert("images"@.len() != "c++"@.len());
    assert("python"@.len() != "c++"@.len());
}

/// The state of the target directory's subdirectories after provisioning:
/// whatever was already there, together with every category folder.
pub open spec fn provisioned_dirs(dirs: Set<Seq<char>>) -> Set<Seq<char>> {
    dirs.union(folder_set())
}

/// Provisioning is idempotent: provisioning a directory that has already been
/// provisioned leaves the subdirectory set unchanged, so a second run creates
/// nothing and fails on nothing.
pub proof fn lemma_provisioning_idempotent(dirs: Set<Seq<char>>)
    ensures
        provisioned_dirs(provisioned_dirs(dirs)) == provisioned_dirs(dirs),
{
    assert(provisioned_dirs(provisioned_dirs(dirs)) =~= provisioned_dirs(dirs));
}

} // verus!
