use vstd::prelude::*;

verus! {

/// One occurrence of a path literal: the file that holds it and its exact text.
pub struct Reference {
    pub file: String,
    pub text: String,
}

/// The mathematical value of a [`Reference`].
pub ghost struct RefView {
    pub file: Seq<char>,
    pub text: Seq<char>,
}

impl View for Reference {
    type V = RefView;

    open spec fn view(&self) -> RefView {
        RefView { file: self.file@, text: self.text@ }
    }
}

impl Reference {
    pub fn new(file: String, text: String) -> (r: Reference)
        ensures
            r@ == (RefView { file: file@, text: text@ }),
    {
        Reference { file, text }
    }

    /// A copy with the same file and text.
    pub fn duplicate(&self) -> (r: Reference)
        ensures
            r@ == self@,
    {
        Reference { file: self.file.clone(), text: self.text.clone() }
    }

    /// Whether both fields are equal.
    pub fn same_as(&self, other: &Reference) -> (r: bool)
        ensures
            r == (self@ == other@),
    {
        self.file == other.file && self.text == other.text
    }
}

/// The set of references that a sequence of stored references stands for.
pub open spec fn ref_set(v: Seq<Reference>) -> Set<RefView> {
    Set::new(|r: RefView| exists|k: int| 0 <= k < v.len() && #[trigger] v[k]@ == r)
}

pub proof fn lemma_ref_set_push(v: Seq<Reference>, x: Reference)
    ensures
        ref_set(v.push(x)) == ref_set(v).insert(x@),
{
    assert forall|r: RefView| ref_set(v.push(x)).contains(r) implies ref_set(v).insert(x@).contains(r) by {
        let k = choose|k: int| 0 <= k < v.push(x).len() && #[trigger] v.push(x)[k]@ == r;
        if k < v.len() {
            assert(v[k]@ == r);
        }
    }
    assert forall|r: RefView| ref_set(v).insert(x@).contains(r) implies ref_set(v.push(x)).contains(r) by {
        if r == x@ {
            assert(v.push(x)[v.len() as int]@ == r);
        } else {
            let k = choose|k: int| 0 <= k < v.len() && #[trigger] v[k]@ == r;
            assert(v.push(x)[k]@ == r);
        }
    }
    assert(ref_set(v.push(x)) =~= ref_set(v).insert(x@));
}

/// One step of a relative path.
pub enum Component {
    CurDir,
    ParentDir,
    Normal(String),
    /// A root anchor or a prefix, which a relative reference cannot follow.
    Anchor,
}

pub ghost enum ComponentView {
    CurDir,
    ParentDir,
    Normal(Seq<char>),
    Anchor,
}

impl View for Component {
    type V = ComponentView;

    open spec fn view(&self) -> ComponentView {
        match self {
            Component::CurDir => ComponentView::CurDir,
            Component::ParentDir => ComponentView::ParentDir,
            Component::Normal(s) => ComponentView::Normal(s@),
            Component::Anchor => ComponentView::Anchor,
        }
    }
}

pub open spec fn components_view(v: Seq<Component>) -> Seq<ComponentView> {
    v.map_values(|c: Component| c@)
}

/// The components that std's path parser finds in a path text.
pub uninterp spec fn path_components(text: Seq<char>) -> Seq<ComponentView>;

/// Relies on std::path::Path::components to split a path text into its
/// components; the result depends on the text alone.
#[verifier::external_body]
fn split_components(text: &str) -> (r: Vec<Component>)
    ensures
        components_view(r@) == path_components(text@),
{
    std::path::Path::new(text).components().map(|c| match c {
        std::path::Component::CurDir => Component::CurDir,
        std::path::Component::ParentDir => Component::ParentDir,
        std::path::Component::Normal(s) => Component::Normal(s.to_string_lossy().into_owned()),
        std::path::Component::RootDir => Component::Anchor,
        std::path::Component::Prefix(_) => Component::Anchor,
    }).collect()
}

/// The file a directory reference stands for.
pub open spec fn default_entry() -> Seq<char> {
    seq!['d', 'e', 'f', 'a', 'u', 'l', 't', '.', 'n', 'i', 'x']
}

/// What the filesystem says about the canonical target of a reference.
#[derive(Clone, Copy, PartialEq, Eq, Structural, Debug)]
pub enum TargetKind {
    Directory,
    File,
    /// It exists but is neither a file nor a directory.
    Other,
    /// Canonicalization failed: there is nothing at that path.
    Missing,
}

#[derive(Clone, Copy, PartialEq, Eq, Structural, Debug)]
pub enum ResolveError {
    NotFound,
    NotFileOrDirectory,
}

/// The components that propagation walks for a reference with literal text
/// `text` whose canonical target has kind `kind`.
pub open spec fn resolved_components(text: Seq<char>, kind: TargetKind) -> Result<Seq<ComponentView>, ResolveError> {
    match kind {
        TargetKind::Directory => Ok(path_components(text).push(ComponentView::Normal(default_entry()))),
        TargetKind::File => Ok(path_components(text)),
        TargetKind::Other => Err(ResolveError::NotFileOrDirectory),
        TargetKind::Missing => Err(ResolveError::NotFound),
    }
}

/// Turns the literal text of a reference into the components to walk: a
/// directory target stands for its default entry file, a file for itself.
/// The kind comes from the canonical target, but the components come from
/// the literal text: propagation follows what the source spells out.
pub fn resolve(text: &String, kind: TargetKind) -> (r: Result<Vec<Component>, ResolveError>)
    ensures
        match (r, resolved_components(text@, kind)) {
            (Ok(v), Ok(s)) => components_view(v@) == s,
            (Err(e), Err(f)) => e == f,
            _ => false,
        },
{
    match kind {
        TargetKind::Missing => Err(ResolveError::NotFound),
        TargetKind::Other => Err(ResolveError::NotFileOrDirectory),
        TargetKind::File => Ok(split_components(text.as_str())),
        TargetKind::Directory => {
            let mut v = split_components(text.as_str());
            let entry = "default.nix".to_owned();
            proof {
                reveal_strlit("default.nix");
            }
            assert(entry@ =~= default_entry());
            let ghost before = v@;
            v.push(Component::Normal(entry));
            assert(components_view(v@) =~= components_view(before).push(ComponentView::Normal(default_entry())));
            Ok(v)
        },
    }
}

} // verus!
