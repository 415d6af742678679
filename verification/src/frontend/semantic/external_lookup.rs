//! Lookup-only semantic context for calls outside the current target:
//! function signatures and definition locations of named import roots (by
//! path) and of extern libraries (by function name).

use crate::collections::text_map::{
    chars_lt, lemma_chars_lt_irreflexive, lemma_text_lookup_at, lemma_texts_lt_irreflexive, lemma_texts_lt_transitive,
    string_texts, texts_lt, text_entries_contain, text_entries_lookup, text_entries_sorted, TextKey, TextMap,
};
use crate::frontend::ast::Span;
use crate::midend::type_check::signatures::TypedFunctionSignature;
use vstd::prelude::*;

verus! {

/// Where an item of an external root is defined.
#[derive(Debug, PartialEq, Eq)]
pub struct ExternalDefinitionLocation {
    pub file_path: String,
    pub span: Span,
}

impl Clone for ExternalDefinitionLocation {
    fn clone(&self) -> (r: Self)
        ensures
            r == *self,
    {
        ExternalDefinitionLocation { file_path: self.file_path.clone(), span: self.span }
    }
}

struct ExternalNamedRoot {
    functions_by_path: TextMap<Vec<String>, TypedFunctionSignature>,
    definitions_by_path: TextMap<Vec<String>, ExternalDefinitionLocation>,
}

struct ExternalExternLibrary {
    functions_by_name: TextMap<String, TypedFunctionSignature>,
    definitions_by_name: TextMap<String, ExternalDefinitionLocation>,
}

/// Function signatures and definitions of named import roots and extern
/// libraries, for queries outside the current target's own tables.
pub struct ExternalSemanticLookup {
    named_roots: TextMap<String, ExternalNamedRoot>,
    extern_libraries: TextMap<String, ExternalExternLibrary>,
}

/// The first library (in ascending name order) among the entries that has
/// function `name`.
pub open spec fn first_library_with<L>(entries: Seq<(String, L)>, has: spec_fn(L) -> bool) -> Option<String>
    decreases entries.len(),
{
    if entries.len() == 0 {
        None
    } else if has(entries[0].1) {
        Some(entries[0].0)
    } else {
        first_library_with(entries.drop_first(), has)
    }
}

impl ExternalSemanticLookup {
    /// The signature of function `path` of named root `root`.
    pub closed spec fn spec_root_function(&self, root: Seq<char>, path: Seq<Seq<char>>) -> Option<TypedFunctionSignature> {
        match self.named_roots.spec_get(seq![root]) {
            Some(r) => r.functions_by_path.spec_get(path),
            None => None,
        }
    }

    /// The definition of item `path` of named root `root`.
    pub closed spec fn spec_root_definition(&self, root: Seq<char>, path: Seq<Seq<char>>) -> Option<ExternalDefinitionLocation> {
        match self.named_roots.spec_get(seq![root]) {
            Some(r) => r.definitions_by_path.spec_get(path),
            None => None,
        }
    }

    /// The signature of function `name` of extern library `library`.
    pub closed spec fn spec_extern_function(&self, library: Seq<char>, name: Seq<char>) -> Option<TypedFunctionSignature> {
        match self.extern_libraries.spec_get(seq![library]) {
            Some(l) => l.functions_by_name.spec_get(seq![name]),
            None => None,
        }
    }

    /// The definition of function `name` of extern library `library`.
    pub closed spec fn spec_extern_definition(&self, library: Seq<char>, name: Seq<char>) -> Option<ExternalDefinitionLocation> {
        match self.extern_libraries.spec_get(seq![library]) {
            Some(l) => l.definitions_by_name.spec_get(seq![name]),
            None => None,
        }
    }

    /// Whether extern library `library` is known.
    pub closed spec fn spec_is_library(&self, library: Seq<char>) -> bool {
        self.extern_libraries.spec_get(seq![library]) is Some
    }

    /// The name of the first extern library, in ascending name order, that
    /// has function `name`.
    pub closed spec fn spec_namespace_of(&self, name: Seq<char>) -> Option<Seq<char>> {
        match first_library_with(
            self.extern_libraries.spec_entries(),
            |l: ExternalExternLibrary| l.functions_by_name.spec_get(seq![name]) is Some,
        ) {
            Some(s) => Some(s@),
            None => None,
        }
    }

    /// A lookup that knows nothing.
    pub fn new() -> (r: Self)
        ensures
            forall|root: Seq<char>, path: Seq<Seq<char>>| #[trigger] r.spec_root_function(root, path) is None,
            forall|root: Seq<char>, path: Seq<Seq<char>>| #[trigger] r.spec_root_definition(root, path) is None,
            forall|lib: Seq<char>, name: Seq<char>| #[trigger] r.spec_extern_function(lib, name) is None,
            forall|lib: Seq<char>, name: Seq<char>| #[trigger] r.spec_extern_definition(lib, name) is None,
            forall|lib: Seq<char>| !#[trigger] r.spec_is_library(lib),
            forall|name: Seq<char>| #[trigger] r.spec_namespace_of(name) is None,
    {
        let r = ExternalSemanticLookup { named_roots: TextMap::new(), extern_libraries: TextMap::new() };
        proof {
            assert forall|name: Seq<char>| #[trigger] r.spec_namespace_of(name) is None by {
                assert(r.extern_libraries.spec_entries().len() == 0);
            }
        }
        r
    }

    fn take_named_root(&mut self, root_name: &String) -> (r: ExternalNamedRoot)
        ensures
            match old(self).named_roots.spec_get(root_name.text()) {
                Some(x) => r == x,
                None => r.functions_by_path.spec_entries().len() == 0 && r.definitions_by_path.spec_entries().len() == 0
                    && (forall|t: Seq<Seq<char>>| #[trigger] r.functions_by_path.spec_get(t) is None)
                    && (forall|t: Seq<Seq<char>>| #[trigger] r.definitions_by_path.spec_get(t) is None),
            },
            final(self).named_roots.spec_get(root_name.text()) is None,
            forall|t: Seq<Seq<char>>| t != root_name.text() ==> #[trigger] final(self).named_roots.spec_get(t) == old(self).named_roots.spec_get(t),
            final(self).extern_libraries == old(self).extern_libraries,
    {
        match self.named_roots.remove(root_name) {
            Some(r) => r,
            None => ExternalNamedRoot { functions_by_path: TextMap::new(), definitions_by_path: TextMap::new() },
        }
    }

    fn take_extern_library(&mut self, library_name: &String) -> (r: ExternalExternLibrary)
        ensures
            match old(self).extern_libraries.spec_get(library_name.text()) {
                Some(x) => r == x,
                None => r.functions_by_name.spec_entries().len() == 0 && r.definitions_by_name.spec_entries().len() == 0
                    && (forall|t: Seq<Seq<char>>| #[trigger] r.functions_by_name.spec_get(t) is None)
                    && (forall|t: Seq<Seq<char>>| #[trigger] r.definitions_by_name.spec_get(t) is None),
            },
            final(self).extern_libraries.spec_get(library_name.text()) is None,
            forall|t: Seq<Seq<char>>| t != library_name.text() ==> #[trigger] final(self).extern_libraries.spec_get(t) == old(self).extern_libraries.spec_get(t),
            final(self).named_roots == old(self).named_roots,
    {
        match self.extern_libraries.remove(library_name) {
            Some(l) => l,
            None => ExternalExternLibrary { functions_by_name: TextMap::new(), definitions_by_name: TextMap::new() },
        }
    }

    /// Records the signature of function `path` of named root `root_name`.
    pub fn insert_named_root_function(&mut self, root_name: String, path: Vec<String>, signature: TypedFunctionSignature)
        ensures
            final(self).spec_root_function(root_name@, string_texts(path@)) == Some(signature),
            forall|r: Seq<char>, p: Seq<Seq<char>>| (r, p) != (root_name@, string_texts(path@)) ==>
                #[trigger] final(self).spec_root_function(r, p) == old(self).spec_root_function(r, p),
            forall|r: Seq<char>, p: Seq<Seq<char>>| #[trigger] final(self).spec_root_definition(r, p) == old(self).spec_root_definition(r, p),
            forall|l: Seq<char>, n: Seq<char>| #[trigger] final(self).spec_extern_function(l, n) == old(self).spec_extern_function(l, n),
            forall|l: Seq<char>, n: Seq<char>| #[trigger] final(self).spec_extern_definition(l, n) == old(self).spec_extern_definition(l, n),
            forall|l: Seq<char>| #[trigger] final(self).spec_is_library(l) == old(self).spec_is_library(l),
            forall|n: Seq<char>| #[trigger] final(self).spec_namespace_of(n) == old(self).spec_namespace_of(n),
    {
        self.insert_named_root_function_with_definition(root_name, path, signature, None);
    }

    /// Records the signature of function `path` of named root `root_name`,
    /// and its definition when given.
    pub fn insert_named_root_function_with_definition(
        &mut self,
        root_name: String,
        path: Vec<String>,
        signature: TypedFunctionSignature,
        definition: Option<ExternalDefinitionLocation>,
    )
        ensures
            final(self).spec_root_function(root_name@, string_texts(path@)) == Some(signature),
            forall|r: Seq<char>, p: Seq<Seq<char>>| (r, p) != (root_name@, string_texts(path@)) ==>
                #[trigger] final(self).spec_root_function(r, p) == old(self).spec_root_function(r, p),
            forall|r: Seq<char>, p: Seq<Seq<char>>| #[trigger] final(self).spec_root_definition(r, p) == (
                if definition is Some && (r, p) == (root_name@, string_texts(path@)) {
                    definition
                } else {
                    old(self).spec_root_definition(r, p)
                }),
            forall|l: Seq<char>, n: Seq<char>| #[trigger] final(self).spec_extern_function(l, n) == old(self).spec_extern_function(l, n),
            forall|l: Seq<char>, n: Seq<char>| #[trigger] final(self).spec_extern_definition(l, n) == old(self).spec_extern_definition(l, n),
            forall|l: Seq<char>| #[trigger] final(self).spec_is_library(l) == old(self).spec_is_library(l),
            forall|n: Seq<char>| #[trigger] final(self).spec_namespace_of(n) == old(self).spec_namespace_of(n),
    {
        let ghost old_self = *self;
        let ghost rt = root_name.text();
        let ghost pt = path.text();
        let mut named_root = self.take_named_root(&root_name);
        let ghost taken = named_root;
        match definition {
            Some(d) => {
                let key = path.clone_text();
                named_root.definitions_by_path.insert(key, d);
            },
            None => {},
        }
        let ghost defs_after = named_root.definitions_by_path;
        named_root.functions_by_path.insert(path, signature);
        self.named_roots.insert(root_name, named_root);
        proof {
            assert(rt == seq![root_name@]);
            assert(pt == string_texts(path@));
            assert forall|r: Seq<char>, p: Seq<Seq<char>>| (r, p) != (root_name@, string_texts(path@)) implies
                #[trigger] self.spec_root_function(r, p) == old_self.spec_root_function(r, p) by {
                if r != root_name@ {
                    assert(seq![r] != rt) by {
                        if seq![r] == rt {
                            assert(seq![r][0] == rt[0]);
                        }
                    }
                }
            }
            assert forall|r: Seq<char>, p: Seq<Seq<char>>| #[trigger] self.spec_root_definition(r, p) == (
                if definition is Some && (r, p) == (root_name@, string_texts(path@)) {
                    definition
                } else {
                    old_self.spec_root_definition(r, p)
                }) by {
                if r != root_name@ {
                    assert(seq![r] != rt) by {
                        if seq![r] == rt {
                            assert(seq![r][0] == rt[0]);
                        }
                    }
                }
            }
        }
    }

    /// Records the definition of item `path` of named root `root_name`.
    pub fn insert_named_root_definition(&mut self, root_name: String, path: Vec<String>, location: ExternalDefinitionLocation)
        ensures
            forall|r: Seq<char>, p: Seq<Seq<char>>| #[trigger] final(self).spec_root_function(r, p) == old(self).spec_root_function(r, p),
            final(self).spec_root_definition(root_name@, string_texts(path@)) == Some(location),
            forall|r: Seq<char>, p: Seq<Seq<char>>| (r, p) != (root_name@, string_texts(path@)) ==>
                #[trigger] final(self).spec_root_definition(r, p) == old(self).spec_root_definition(r, p),
            forall|l: Seq<char>, n: Seq<char>| #[trigger] final(self).spec_extern_function(l, n) == old(self).spec_extern_function(l, n),
            forall|l: Seq<char>, n: Seq<char>| #[trigger] final(self).spec_extern_definition(l, n) == old(self).spec_extern_definition(l, n),
            forall|l: Seq<char>| #[trigger] final(self).spec_is_library(l) == old(self).spec_is_library(l),
            forall|n: Seq<char>| #[trigger] final(self).spec_namespace_of(n) == old(self).spec_namespace_of(n),
    {
        let ghost old_self = *self;
        let ghost rt = root_name.text();
        let mut named_root = self.take_named_root(&root_name);
        named_root.definitions_by_path.insert(path, location);
        self.named_roots.insert(root_name, named_root);
        proof {
            assert(rt == seq![root_name@]);
            assert forall|r: Seq<char>, p: Seq<Seq<char>>| #[trigger] self.spec_root_function(r, p) == old_self.spec_root_function(r, p) by {
                if r != root_name@ {
                    assert(seq![r] != rt) by {
                        if seq![r] == rt {
                            assert(seq![r][0] == rt[0]);
                        }
                    }
                }
            }
            assert forall|r: Seq<char>, p: Seq<Seq<char>>| (r, p) != (root_name@, string_texts(path@)) implies
                #[trigger] self.spec_root_definition(r, p) == old_self.spec_root_definition(r, p) by {
                if r != root_name@ {
                    assert(seq![r] != rt) by {
                        if seq![r] == rt {
                            assert(seq![r][0] == rt[0]);
                        }
                    }
                }
            }
        }
    }

    /// The signature of function `path` of named root `root_name`, if known.
    pub fn function_for_named_root_path(&self, root_name: &str, path: &[String]) -> (r: Option<&TypedFunctionSignature>)
        ensures
            match r {
                Some(s) => self.spec_root_function(root_name@, string_texts(path@)) == Some(*s),
                None => self.spec_root_function(root_name@, string_texts(path@)) is None,
            },
    {
        let key = root_name.to_owned();
        let root = match self.named_roots.get(&key) {
            Some(r) => r,
            None => return None,
        };
        let path_key = path_vec(path);
        root.functions_by_path.get(&path_key)
    }

    /// The definition of item `path` of named root `root_name`, if known.
    pub fn definition_for_named_root_path(&self, root_name: &str, path: &[String]) -> (r: Option<&ExternalDefinitionLocation>)
        ensures
            match r {
                Some(d) => self.spec_root_definition(root_name@, string_texts(path@)) == Some(*d),
                None => self.spec_root_definition(root_name@, string_texts(path@)) is None,
            },
    {
        let key = root_name.to_owned();
        let root = match self.named_roots.get(&key) {
            Some(r) => r,
            None => return None,
        };
        let path_key = path_vec(path);
        root.definitions_by_path.get(&path_key)
    }

    /// Records the signature of function `function_name` of extern library
    /// `library_name`.
    pub fn insert_extern_function(&mut self, library_name: String, function_name: String, signature: TypedFunctionSignature)
        ensures
            final(self).spec_extern_function(library_name@, function_name@) == Some(signature),
            forall|l: Seq<char>, n: Seq<char>| (l, n) != (library_name@, function_name@) ==>
                #[trigger] final(self).spec_extern_function(l, n) == old(self).spec_extern_function(l, n),
            forall|l: Seq<char>, n: Seq<char>| #[trigger] final(self).spec_extern_definition(l, n) == old(self).spec_extern_definition(l, n),
            forall|r: Seq<char>, p: Seq<Seq<char>>| #[trigger] final(self).spec_root_function(r, p) == old(self).spec_root_function(r, p),
            forall|r: Seq<char>, p: Seq<Seq<char>>| #[trigger] final(self).spec_root_definition(r, p) == old(self).spec_root_definition(r, p),
            final(self).spec_is_library(library_name@),
            forall|l: Seq<char>| l != library_name@ ==> #[trigger] final(self).spec_is_library(l) == old(self).spec_is_library(l),
    {
        self.insert_extern_function_with_definition(library_name, function_name, signature, None);
    }

    /// Records the signature of function `function_name` of extern library
    /// `library_name`, and its definition when given.
    pub fn insert_extern_function_with_definition(
        &mut self,
        library_name: String,
        function_name: String,
        signature: TypedFunctionSignature,
        definition: Option<ExternalDefinitionLocation>,
    )
        ensures
            final(self).spec_extern_function(library_name@, function_name@) == Some(signature),
            forall|l: Seq<char>, n: Seq<char>| (l, n) != (library_name@, function_name@) ==>
                #[trigger] final(self).spec_extern_function(l, n) == old(self).spec_extern_function(l, n),
            forall|l: Seq<char>, n: Seq<char>| #[trigger] final(self).spec_extern_definition(l, n) == (
                if definition is Some && (l, n) == (library_name@, function_name@) {
                    definition
                } else {
                    old(self).spec_extern_definition(l, n)
                }),
            forall|r: Seq<char>, p: Seq<Seq<char>>| #[trigger] final(self).spec_root_function(r, p) == old(self).spec_root_function(r, p),
            forall|r: Seq<char>, p: Seq<Seq<char>>| #[trigger] final(self).spec_root_definition(r, p) == old(self).spec_root_definition(r, p),
            final(self).spec_is_library(library_name@),
            forall|l: Seq<char>| l != library_name@ ==> #[trigger] final(self).spec_is_library(l) == old(self).spec_is_library(l),
    {
        let ghost old_self = *self;
        let ghost lt = library_name.text();
        let ghost nt = function_name.text();
        let mut library = self.take_extern_library(&library_name);
        match definition {
            Some(d) => {
                let key = function_name.clone_text();
                library.definitions_by_name.insert(key, d);
            },
            None => {},
        }
        library.functions_by_name.insert(function_name, signature);
        self.extern_libraries.insert(library_name, library);
        proof {
            assert(lt == seq![library_name@]);
            assert(nt == seq![function_name@]);
            assert forall|l: Seq<char>, n: Seq<char>| (l, n) != (library_name@, function_name@) implies
                #[trigger] self.spec_extern_function(l, n) == old_self.spec_extern_function(l, n) by {
                if l != library_name@ {
                    assert(seq![l] != lt) by {
                        if seq![l] == lt {
                            assert(seq![l][0] == lt[0]);
                        }
                    }
                } else {
                    assert(seq![n] != nt) by {
                        if seq![n] == nt {
                            assert(seq![n][0] == nt[0]);
                        }
                    }
                }
            }
            assert forall|l: Seq<char>, n: Seq<char>| #[trigger] self.spec_extern_definition(l, n) == (
                if definition is Some && (l, n) == (library_name@, function_name@) {
                    definition
                } else {
                    old_self.spec_extern_definition(l, n)
                }) by {
                if l != library_name@ {
                    assert(seq![l] != lt) by {
                        if seq![l] == lt {
                            assert(seq![l][0] == lt[0]);
                        }
                    }
                } else if n != function_name@ {
                    assert(seq![n] != nt) by {
                        if seq![n] == nt {
                            assert(seq![n][0] == nt[0]);
                        }
                    }
                }
            }
            assert forall|l: Seq<char>| l != library_name@ implies #[trigger] self.spec_is_library(l) == old_self.spec_is_library(l) by {
                assert(seq![l] != lt) by {
                    if seq![l] == lt {
                        assert(seq![l][0] == lt[0]);
                    }
                }
            }
        }
    }

    /// Records the definition of function `function_name` of extern library
    /// `library_name`.
    pub fn insert_extern_definition(&mut self, library_name: String, function_name: String, location: ExternalDefinitionLocation)
        ensures
            forall|l: Seq<char>, n: Seq<char>| #[trigger] final(self).spec_extern_function(l, n) == old(self).spec_extern_function(l, n),
            final(self).spec_extern_definition(library_name@, function_name@) == Some(location),
            forall|l: Seq<char>, n: Seq<char>| (l, n) != (library_name@, function_name@) ==>
                #[trigger] final(self).spec_extern_definition(l, n) == old(self).spec_extern_definition(l, n),
            forall|r: Seq<char>, p: Seq<Seq<char>>| #[trigger] final(self).spec_root_function(r, p) == old(self).spec_root_function(r, p),
            forall|r: Seq<char>, p: Seq<Seq<char>>| #[trigger] final(self).spec_root_definition(r, p) == old(self).spec_root_definition(r, p),
            final(self).spec_is_library(library_name@),
            forall|l: Seq<char>| l != library_name@ ==> #[trigger] final(self).spec_is_library(l) == old(self).spec_is_library(l),
    {
        let ghost old_self = *self;
        let ghost lt = library_name.text();
        let ghost nt = function_name.text();
        let mut library = self.take_extern_library(&library_name);
        library.definitions_by_name.insert(function_name, location);
        self.extern_libraries.insert(library_name, library);
        proof {
            assert(lt == seq![library_name@]);
            assert(nt == seq![function_name@]);
            assert forall|l: Seq<char>, n: Seq<char>| #[trigger] self.spec_extern_function(l, n) == old_self.spec_extern_function(l, n) by {
                if l != library_name@ {
                    assert(seq![l] != lt) by {
                        if seq![l] == lt {
                            assert(seq![l][0] == lt[0]);
                        }
                    }
                }
            }
            assert forall|l: Seq<char>, n: Seq<char>| (l, n) != (library_name@, function_name@) implies
                #[trigger] self.spec_extern_definition(l, n) == old_self.spec_extern_definition(l, n) by {
                if l != library_name@ {
                    assert(seq![l] != lt) by {
                        if seq![l] == lt {
                            assert(seq![l][0] == lt[0]);
                        }
                    }
                } else {
                    assert(seq![n] != nt) by {
                        if seq![n] == nt {
                            assert(seq![n][0] == nt[0]);
                        }
                    }
                }
            }
            assert forall|l: Seq<char>| l != library_name@ implies #[trigger] self.spec_is_library(l) == old_self.spec_is_library(l) by {
                assert(seq![l] != lt) by {
                    if seq![l] == lt {
                        assert(seq![l][0] == lt[0]);
                    }
                }
            }
        }
    }

    /// The signature of function `function_name` of extern library
    /// `library_name`, if known.
    pub fn extern_function_signature(&self, library_name: &str, function_name: &str) -> (r: Option<&TypedFunctionSignature>)
        ensures
            match r {
                Some(s) => self.spec_extern_function(library_name@, function_name@) == Some(*s),
                None => self.spec_extern_function(library_name@, function_name@) is None,
            },
    {
        let key = library_name.to_owned();
        let library = match self.extern_libraries.get(&key) {
            Some(l) => l,
            None => return None,
        };
        let name = function_name.to_owned();
        library.functions_by_name.get(&name)
    }

    /// The definition of function `function_name` of extern library
    /// `library_name`, if known.
    pub fn extern_function_definition(&self, library_name: &str, function_name: &str) -> (r: Option<&ExternalDefinitionLocation>)
        ensures
            match r {
                Some(d) => self.spec_extern_definition(library_name@, function_name@) == Some(*d),
                None => self.spec_extern_definition(library_name@, function_name@) is None,
            },
    {
        let key = library_name.to_owned();
        let library = match self.extern_libraries.get(&key) {
            Some(l) => l,
            None => return None,
        };
        let name = function_name.to_owned();
        library.definitions_by_name.get(&name)
    }

    /// Whether extern library `library_name` is known.
    pub fn is_extern_library(&self, library_name: &str) -> (b: bool)
        ensures
            b == self.spec_is_library(library_name@),
    {
        let key = library_name.to_owned();
        self.extern_libraries.contains_key(&key)
    }

    /// The first extern library, in ascending name order, with function
    /// `function_name`: a library that has it, and no library whose name
    /// comes first has it; `None` when no library has it.
    pub fn extern_namespace_for_function(&self, function_name: &str) -> (r: Option<&str>)
        ensures
            match r {
                Some(s) => self.spec_namespace_of(function_name@) == Some(s@),
                None => self.spec_namespace_of(function_name@) is None,
            },
            match r {
                Some(s) => {
                    &&& self.spec_extern_function(s@, function_name@) is Some
                    &&& forall|l: Seq<char>| #[trigger] chars_lt(l, s@) ==> self.spec_extern_function(l, function_name@) is None
                },
                None => forall|l: Seq<char>| #[trigger] self.spec_extern_function(l, function_name@) is None,
            },
    {
        let name = function_name.to_owned();
        let entries = self.extern_libraries.entries();
        let ghost es = entries@;
        let ghost lib_has = |l: ExternalExternLibrary| l.functions_by_name.spec_get(seq![function_name@]) is Some;
        let mut i: usize = 0;
        proof {
            assert(entries@.subrange(0, entries@.len() as int) =~= entries@);
        }
        while i < entries.len()
            invariant
                i <= es.len(),
                es == entries@,
                es == self.extern_libraries.spec_entries(),
                text_entries_sorted(es),
                name@ == function_name@,
                lib_has == (|l: ExternalExternLibrary| l.functions_by_name.spec_get(seq![function_name@]) is Some),
                first_library_with(es, lib_has) == first_library_with(es.subrange(i as int, es.len() as int), lib_has),
                forall|j: int| 0 <= j < i ==> !lib_has(#[trigger] es[j].1),
            decreases es.len() - i,
        {
            proof {
                assert(es.subrange(i as int, es.len() as int).drop_first() =~= es.subrange(i as int + 1, es.len() as int));
            }
            if entries[i].1.functions_by_name.contains_key(&name) {
                let s = entries[i].0.as_str();
                proof {
                    lemma_text_lookup_at(es, i as int);
                    assert(self.spec_extern_function(s@, function_name@) is Some);
                    assert forall|l: Seq<char>| #[trigger] chars_lt(l, s@) implies self.spec_extern_function(l, function_name@) is None by {
                        self.lemma_no_earlier_library(es, i as int, l, function_name@);
                    }
                }
                return Some(s);
            }
            i = i + 1;
        }
        proof {
            assert forall|l: Seq<char>| #[trigger] self.spec_extern_function(l, function_name@) is None by {
                if text_entries_contain(es, seq![l]) {
                    let j = choose|j: int| 0 <= j < es.len() && #[trigger] es[j].0.text() == seq![l];
                    lemma_text_lookup_at(es, j);
                    assert(!lib_has(es[j].1));
                }
            }
        }
        None
    }

    /// When no library before position `i` has function `name` and the
    /// library at `i` is named after `l`, library `l` lacks it.
    proof fn lemma_no_earlier_library(&self, es: Seq<(String, ExternalExternLibrary)>, i: int, l: Seq<char>, name: Seq<char>)
        requires
            es == self.extern_libraries.spec_entries(),
            text_entries_sorted(es),
            0 <= i < es.len(),
            chars_lt(l, es[i].0@),
            forall|j: int| 0 <= j < i ==> (#[trigger] es[j].1).functions_by_name.spec_get(seq![name]) is None,
        ensures
            self.spec_extern_function(l, name) is None,
    {
        if text_entries_contain(es, seq![l]) {
            let j = choose|j: int| 0 <= j < es.len() && #[trigger] es[j].0.text() == seq![l];
            lemma_text_lookup_at(es, j);
            let a = seq![l];
            let b = seq![es[i].0@];
            assert(a[0] != b[0]) by {
                lemma_chars_lt_irreflexive(l);
            }
            assert(texts_lt(a, b));
            if j >= i {
                if j > i {
                    assert(texts_lt(es[i].0.text(), es[j].0.text()));
                    assert(es[i].0.text() == b);
                    lemma_texts_lt_transitive(a, b, a);
                } else {
                    lemma_texts_lt_irreflexive(a);
                }
                lemma_texts_lt_irreflexive(a);
                assert(false);
            }
        }
    }
}

/// The path as an owned list of strings.
fn path_vec(path: &[String]) -> (r: Vec<String>)
    ensures
        r@ == path@,
{
    let mut out: Vec<String> = Vec::new();
    let mut i: usize = 0;
    while i < path.len()
        invariant
            i <= path@.len(),
            out@ == path@.subrange(0, i as int),
        decreases path@.len() - i,
    {
        out.push(path[i].clone());
        proof {
            assert(out@ =~= path@.subrange(0, i as int + 1));
        }
        i = i + 1;
    }
    proof {
        assert(out@ =~= path@);
    }
    out
}

} // verus!
