//! Paths of the host, stated over their components.
use crate::text::{self, lossy_text_of, text_of_utf8};
use crate::tools::sandbox::{SandboxError, SandboxErrorView};
use crate::views;
use vstd::prelude::*;

verus! {

/// One part of a path.
#[derive(Debug, PartialEq)]
pub enum Component {
    /// The start of an absolute path.
    Root,
    /// The directory itself.
    Current,
    /// The directory above.
    Parent,
    /// A name.
    Normal(Vec<u8>),
}

/// What a `Component` holds.
#[verifier::ext_equal]
pub enum ComponentView {
    Root,
    Current,
    Parent,
    Normal(Seq<u8>),
}

impl View for Component {
    type V = ComponentView;

    open spec fn view(&self) -> ComponentView {
        match *self {
            Component::Root => ComponentView::Root,
            Component::Current => ComponentView::Current,
            Component::Parent => ComponentView::Parent,
            Component::Normal(name) => ComponentView::Normal(name@),
        }
    }
}

impl Clone for Component {
    fn clone(&self) -> (r: Self)
        ensures
            r@ == self@,
    {
        match self {
            Component::Root => Component::Root,
            Component::Current => Component::Current,
            Component::Parent => Component::Parent,
            Component::Normal(name) => {
                let copy_name = name.clone();
                assert(copy_name@ =~= (*name)@);
                Component::Normal(copy_name)
            },
        }
    }
}

/// The byte that stands between the parts of a path.
pub const SLASH: u8 = 47;

/// The byte that is written once for the same directory and twice for the one
/// above.
pub const DOT: u8 = 46;

/// A path of the host, as the bytes that the system takes.
#[derive(Debug)]
pub struct HostPath {
    pub bytes: Vec<u8>,
}

impl View for HostPath {
    type V = Seq<u8>;

    open spec fn view(&self) -> Seq<u8> {
        self.bytes@
    }
}

impl Clone for HostPath {
    fn clone(&self) -> (r: Self)
        ensures
            r@ == self@,
    {
        let r = HostPath { bytes: self.bytes.clone() };
        assert(r@ =~= self@);
        r
    }
}

/// Whether a path starts at the root.
pub open spec fn absolute(path: Seq<u8>) -> bool {
    path.len() > 0 && path[0] == SLASH
}

/// What stands between the slashes of a path.
pub open spec fn pieces(path: Seq<u8>) -> Seq<Seq<u8>>
    decreases path.len(),
{
    if path.len() == 0 {
        seq![Seq::empty()]
    } else {
        let before = pieces(path.drop_last());
        if path.last() == SLASH {
            before.push(Seq::empty())
        } else {
            before.drop_last().push(before.last().push(path.last()))
        }
    }
}

/// What a piece stands for. An empty piece stands for nothing, and so does a
/// single dot that does not come first.
pub open spec fn part(piece: Seq<u8>, first: bool) -> Option<ComponentView> {
    if piece.len() == 0 {
        None
    } else if piece == seq![DOT] {
        if first {
            Some(ComponentView::Current)
        } else {
            None
        }
    } else if piece == seq![DOT, DOT] {
        Some(ComponentView::Parent)
    } else {
        Some(ComponentView::Normal(piece))
    }
}

/// What the pieces of a path stand for.
pub open spec fn parts(pieces: Seq<Seq<u8>>) -> Seq<ComponentView>
    decreases pieces.len(),
{
    if pieces.len() == 0 {
        Seq::empty()
    } else {
        let done = parts(pieces.drop_last());
        match part(pieces.last(), pieces.len() == 1) {
            Some(component) => done.push(component),
            None => done,
        }
    }
}

/// The components of a path. Two paths with the same components are the same.
pub open spec fn components(path: Seq<u8>) -> Seq<ComponentView> {
    if absolute(path) {
        seq![ComponentView::Root] + parts(pieces(path))
    } else {
        parts(pieces(path))
    }
}

/// The names below the root that components lead to; none where they lead above
/// the root.
pub open spec fn settle(components: Seq<ComponentView>) -> Option<Seq<Seq<u8>>>
    decreases components.len(),
{
    if components.len() == 0 {
        Some(Seq::empty())
    } else {
        match settle(components.drop_last()) {
            None => None,
            Some(names) => match components.last() {
                ComponentView::Root => Some(names),
                ComponentView::Current => Some(names),
                ComponentView::Parent => if names.len() == 0 {
                    None
                } else {
                    Some(names.drop_last())
                },
                ComponentView::Normal(name) => Some(names.push(name)),
            },
        }
    }
}

/// The names below the root that a path leads to, or why it leads nowhere.
pub open spec fn normal_names(path: Seq<u8>) -> Result<Seq<Seq<u8>>, SandboxErrorView> {
    if !absolute(path) {
        Err(SandboxErrorView::InvalidRequest("filesystem paths must be absolute"@))
    } else {
        match settle(components(path)) {
            Some(names) => Ok(names),
            None => Err(
                SandboxErrorView::InvalidRequest(
                    "filesystem path escapes its root: "@ + text::lossy_text(path),
                ),
            ),
        }
    }
}

/// Names, each with a slash before it.
pub open spec fn slashed(names: Seq<Seq<u8>>) -> Seq<u8>
    decreases names.len(),
{
    if names.len() == 0 {
        Seq::empty()
    } else {
        slashed(names.drop_last()).push(SLASH) + names.last()
    }
}

/// The path that names below the root spell.
pub open spec fn spelled(names: Seq<Seq<u8>>) -> Seq<u8> {
    if names.len() == 0 {
        seq![SLASH]
    } else {
        slashed(names)
    }
}

/// Whether two byte strings are the same.
pub fn same_bytes(a: &Vec<u8>, b: &Vec<u8>) -> (r: bool)
    ensures
        r == (a@ == b@),
{
    if a.len() != b.len() {
        return false;
    }
    let mut i: usize = 0;
    while i < a.len()
        invariant
            i <= a@.len(),
            a@.len() == b@.len(),
            forall|k: int| 0 <= k < i ==> a@[k] == b@[k],
        decreases a@.len() - i,
    {
        if a[i] != b[i] {
            return false;
        }
        i = i + 1;
    }
    assert(a@ =~= b@);
    true
}

/// What a piece of a path stands for.
fn part_of(piece: Vec<u8>, first: bool) -> (r: Option<Component>)
    ensures
        views::opt(r) == part(piece@, first),
{
    if piece.len() == 0 {
        None
    } else if piece.len() == 1 && piece[0] == DOT {
        assert(piece@ =~= seq![DOT]);
        if first {
            Some(Component::Current)
        } else {
            None
        }
    } else if piece.len() == 2 && piece[0] == DOT && piece[1] == DOT {
        assert(piece@ =~= seq![DOT, DOT]);
        Some(Component::Parent)
    } else {
        Some(Component::Normal(piece))
    }
}

impl Component {
    /// Whether two components are the same.
    pub fn same(&self, other: &Component) -> (r: bool)
        ensures
            r == (self@ == other@),
    {
        match (self, other) {
            (Component::Root, Component::Root) => true,
            (Component::Current, Component::Current) => true,
            (Component::Parent, Component::Parent) => true,
            (Component::Normal(a), Component::Normal(b)) => same_bytes(a, b),
            _ => false,
        }
    }
}

impl HostPath {
    /// The path that a text spells.
    pub fn from_text(text: &str) -> (r: Self)
        ensures
            r@ == vstd::utf8::encode_utf8(text@),
    {
        let source = text.as_bytes();
        let mut bytes: Vec<u8> = Vec::new();
        let mut i: usize = 0;
        while i < source.len()
            invariant
                i <= source@.len(),
                bytes@ == source@.take(i as int),
            decreases source@.len() - i,
        {
            bytes.push(source[i]);
            assert(source@.take(i + 1) =~= source@.take(i as int).push(source@[i as int]));
            i = i + 1;
        }
        assert(source@.take(i as int) =~= source@);
        HostPath { bytes }
    }

    /// The path that bytes spell.
    pub fn from_bytes(bytes: Vec<u8>) -> (r: Self)
        ensures
            r@ == bytes@,
    {
        HostPath { bytes }
    }

    pub fn is_empty(&self) -> (r: bool)
        ensures
            r == (self@.len() == 0),
    {
        self.bytes.len() == 0
    }

    /// Whether the path starts at the root.
    pub fn is_absolute(&self) -> (r: bool)
        ensures
            r == absolute(self@),
    {
        self.bytes.len() > 0 && self.bytes[0] == SLASH
    }

    /// The path in words; bytes that are no text are replaced.
    pub fn display(&self) -> (r: String)
        ensures
            r@ == text::lossy_text(self@),
    {
        lossy_text_of(self.bytes.as_slice())
    }

    /// The path as a text, where it is one.
    pub fn text(&self) -> (r: Option<String>)
        ensures
            r is Some <==> vstd::utf8::valid_utf8(self@),
            r matches Some(text) ==> text@ == vstd::utf8::decode_utf8(self@),
    {
        let bytes = self.bytes.clone();
        assert(bytes@ =~= self@);
        text_of_utf8(bytes)
    }

    /// The components of the path.
    pub fn components(&self) -> (r: Vec<Component>)
        ensures
            views::all(r@) == components(self@),
    {
        let ghost path = self@;
        let mut found: Vec<Component> = Vec::new();
        if self.is_absolute() {
            found.push(Component::Root);
        }
        let ghost start = views::all(found@);
        let ghost mut done: Seq<Seq<u8>> = Seq::empty();
        let mut piece: Vec<u8> = Vec::new();
        let mut first = true;
        let mut i: usize = 0;
        assert(path.take(0) =~= Seq::<u8>::empty());
        assert(seq![Seq::<u8>::empty()] =~= done.push(piece@));
        assert(start + parts(done) =~= start);
        while i < self.bytes.len()
            invariant
                i <= self.bytes@.len(),
                path == self@,
                pieces(path.take(i as int)) == done.push(piece@),
                views::all(found@) == start + parts(done),
                first == (done.len() == 0),
            decreases self.bytes@.len() - i,
        {
            let byte = self.bytes[i];
            let ghost next = path.take(i + 1);
            assert(next.drop_last() =~= path.take(i as int));
            assert(next.last() == byte);
            if byte == SLASH {
                let ghost closed = done.push(piece@);
                assert(closed.drop_last() =~= done);
                let ghost before = found@;
                if let Some(component) = part_of(piece, first) {
                    found.push(component);
                    assert(views::all(found@) =~= views::all(before).push(component@));
                    assert(start + parts(done).push(component@) =~= (start + parts(done)).push(
                        component@,
                    ));
                }
                first = false;
                piece = Vec::new();
                proof {
                    done = closed;
                    assert(piece@ =~= Seq::<u8>::empty());
                }
            } else {
                piece.push(byte);
                assert(done.push(piece@.drop_last()).drop_last() =~= done);
                assert(piece@.drop_last().push(byte) =~= piece@);
            }
            i = i + 1;
        }
        assert(path.take(i as int) =~= path);
        let ghost closed = done.push(piece@);
        assert(closed.drop_last() =~= done);
        let ghost before = found@;
        if let Some(component) = part_of(piece, first) {
            found.push(component);
            assert(views::all(found@) =~= views::all(before).push(component@));
            assert(start + parts(done).push(component@) =~= (start + parts(done)).push(
                component@,
            ));
        }
        assert(views::all(found@) == start + parts(closed));
        assert(views::all(found@) =~= components(path));
        found
    }

    /// Whether two paths have the same components.
    pub fn same(&self, other: &HostPath) -> (r: bool)
        ensures
            r == (components(self@) == components(other@)),
    {
        let a = self.components();
        let b = other.components();
        if a.len() != b.len() {
            assert(views::all(a@).len() != views::all(b@).len());
            return false;
        }
        let mut i: usize = 0;
        while i < a.len()
            invariant
                i <= a@.len(),
                a@.len() == b@.len(),
                forall|k: int| 0 <= k < i ==> (#[trigger] a@[k])@ == b@[k]@,
                views::all(a@) == components(self@),
                views::all(b@) == components(other@),
            decreases a@.len() - i,
        {
            if !a[i].same(&b[i]) {
                assert(views::all(a@)[i as int] != views::all(b@)[i as int]);
                return false;
            }
            i = i + 1;
        }
        assert(views::all(a@) =~= views::all(b@));
        true
    }
}

impl PartialEq for HostPath {
    /// Two paths are equal when they have the same components.
    fn eq(&self, other: &Self) -> (r: bool) {
        self.same(other)
    }
}

impl vstd::std_specs::cmp::PartialEqSpecImpl for HostPath {
    open spec fn obeys_eq_spec() -> bool {
        true
    }

    open spec fn eq_spec(&self, other: &Self) -> bool {
        components(self@) == components(other@)
    }
}

impl Eq for HostPath {

}

/// The names below the root that a path leads to.
pub fn normalize_absolute_path(path: &HostPath) -> (r: Result<Vec<Vec<u8>>, SandboxError>)
    ensures
        match normal_names(path@) {
            Ok(names) => r matches Ok(found) && views::all(found@) == names,
            Err(e) => r matches Err(error) && error@ == e,
        },
{
    if !path.is_absolute() {
        return Err(SandboxError::InvalidRequest("filesystem paths must be absolute".to_string()));
    }
    let parts = path.components();
    let ghost all = views::all(parts@);
    let mut names: Vec<Vec<u8>> = Vec::new();
    let mut i: usize = 0;
    assert(all.take(0) =~= Seq::<ComponentView>::empty());
    assert(views::all(names@) =~= Seq::<Seq<u8>>::empty());
    while i < parts.len()
        invariant
            i <= parts@.len(),
            all == views::all(parts@),
            all == components(path@),
            absolute(path@),
            settle(all.take(i as int)) == Some(views::all(names@)),
        decreases parts@.len() - i,
    {
        let ghost next = all.take(i + 1);
        let ghost before = names@;
        assert(next.drop_last() =~= all.take(i as int));
        assert(next.last() == parts@[i as int]@);
        match &parts[i] {
            Component::Root => {},
            Component::Current => {},
            Component::Parent => {
                if names.len() == 0 {
                    proof {
                        lemma_settle_stops(all, i + 1);
                    }
                    let mut words = "filesystem path escapes its root: ".to_string();
                    words.append(path.display().as_str());
                    return Err(SandboxError::InvalidRequest(words));
                }
                names.pop();
                assert(views::all(names@) =~= views::all(before).drop_last());
            },
            Component::Normal(name) => {
                let copy = name.clone();
                assert(copy@ =~= name@);
                names.push(copy);
                assert(views::all(names@) =~= views::all(before).push(name@));
            },
        }
        i = i + 1;
    }
    assert(all.take(i as int) =~= all);
    Ok(names)
}

/// The path that names below the root spell.
pub fn spell(names: &Vec<Vec<u8>>) -> (r: HostPath)
    ensures
        r@ == spelled(views::all(names@)),
{
    let ghost all = views::all(names@);
    let mut bytes: Vec<u8> = Vec::new();
    if names.len() == 0 {
        bytes.push(SLASH);
        assert(bytes@ =~= seq![SLASH]);
        return HostPath { bytes };
    }
    let mut i: usize = 0;
    assert(all.take(0) =~= Seq::<Seq<u8>>::empty());
    while i < names.len()
        invariant
            i <= names@.len(),
            all == views::all(names@),
            bytes@ == slashed(all.take(i as int)),
        decreases names@.len() - i,
    {
        let ghost next = all.take(i + 1);
        assert(next.drop_last() =~= all.take(i as int));
        assert(next.last() == names@[i as int]@);
        bytes.push(SLASH);
        let mut name = names[i].clone();
        assert(name@ =~= names@[i as int]@);
        bytes.append(&mut name);
        i = i + 1;
    }
    assert(all.take(i as int) =~= all);
    HostPath { bytes }
}

/// What leads above the root does so whatever follows.
proof fn lemma_settle_stops(components: Seq<ComponentView>, n: int)
    requires
        0 <= n <= components.len(),
        settle(components.take(n)) is None,
    ensures
        settle(components) is None,
    decreases components.len() - n,
{
    if n == components.len() {
        assert(components.take(n) =~= components);
    } else {
        assert(components.take(n + 1).drop_last() =~= components.take(n));
        lemma_settle_stops(components, n + 1);
    }
}

/// Whether a byte string can be the name of a file.
pub open spec fn proper(name: Seq<u8>) -> bool {
    &&& name.len() > 0
    &&& !name.contains(SLASH)
    &&& name != seq![DOT]
    &&& name != seq![DOT, DOT]
}

proof fn lemma_pieces_without_slash(path: Seq<u8>, i: int, j: int)
    requires
        0 <= i < pieces(path).len(),
        0 <= j < pieces(path)[i].len(),
    ensures
        pieces(path)[i][j] != SLASH,
    decreases path.len(),
{
    if path.len() > 0 {
        let before = pieces(path.drop_last());
        if path.last() == SLASH {
            if i < before.len() {
                lemma_pieces_without_slash(path.drop_last(), i, j);
            }
        } else {
            lemma_has_pieces(path.drop_last());
            if i < before.len() - 1 {
                lemma_pieces_without_slash(path.drop_last(), i, j);
            } else if j < before.last().len() {
                lemma_pieces_without_slash(path.drop_last(), i, j);
            }
        }
    }
}

proof fn lemma_has_pieces(path: Seq<u8>)
    ensures
        pieces(path).len() > 0,
    decreases path.len(),
{
    if path.len() > 0 {
        lemma_has_pieces(path.drop_last());
    }
}

/// Whether every name among the components can be the name of a file.
spec fn named_properly(components: Seq<ComponentView>) -> bool {
    forall|i: int|
        0 <= i < components.len() ==> ((#[trigger] components[i]) matches ComponentView::Normal(
            name,
        ) ==> proper(name))
}

proof fn lemma_parts_proper(all: Seq<Seq<u8>>)
    requires
        forall|i: int| 0 <= i < all.len() ==> !(#[trigger] all[i]).contains(SLASH),
    ensures
        named_properly(parts(all)),
    decreases all.len(),
{
    if all.len() > 0 {
        let before = all.drop_last();
        assert forall|i: int| 0 <= i < before.len() implies !(#[trigger] before[i]).contains(
            SLASH,
        ) by {
            assert(before[i] == all[i]);
        }
        lemma_parts_proper(before);
    }
}

proof fn lemma_settled_proper(components: Seq<ComponentView>)
    requires
        named_properly(components),
        settle(components) is Some,
    ensures
        forall|i: int|
            0 <= i < settle(components)->0.len() ==> proper(#[trigger] settle(components)->0[i]),
    decreases components.len(),
{
    if components.len() > 0 {
        let before = components.drop_last();
        assert forall|i: int| 0 <= i < before.len() implies ((#[trigger] before[i]) matches
            ComponentView::Normal(name) ==> proper(name)) by {
            assert(before[i] == components[i]);
        }
        lemma_settled_proper(before);
        let last = components[components.len() - 1];
    }
}

/// A path that leads somewhere leads to names that files can have.
pub proof fn law_normal_names_are_proper(path: Seq<u8>)
    requires
        normal_names(path) is Ok,
    ensures
        forall|i: int|
            0 <= i < normal_names(path)->Ok_0.len() ==> proper(
                #[trigger] normal_names(path)->Ok_0[i],
            ),
{
    let all = pieces(path);
    assert forall|i: int| 0 <= i < all.len() implies !(#[trigger] all[i]).contains(SLASH) by {
        if all[i].contains(SLASH) {
            let j = choose|j: int| 0 <= j < all[i].len() && all[i][j] == SLASH;
            lemma_pieces_without_slash(path, i, j);
        }
    }
    lemma_parts_proper(all);
    let found = components(path);
    assert forall|i: int| 0 <= i < found.len() implies ((#[trigger] found[i]) matches
        ComponentView::Normal(name) ==> proper(name)) by {
        if i > 0 {
            assert(found[i] == parts(all)[i - 1]);
        }
    }
    lemma_settled_proper(found);
}

proof fn lemma_pieces_of_name(front: Seq<u8>, name: Seq<u8>)
    requires
        !name.contains(SLASH),
    ensures
        pieces(front.push(SLASH) + name) == pieces(front).push(name),
    decreases name.len(),
{
    let path = front.push(SLASH) + name;
    if name.len() == 0 {
        assert(path =~= front.push(SLASH));
        assert(path.drop_last() =~= front);
        assert(name =~= Seq::<u8>::empty());
    } else {
        assert(name.contains(name[name.len() - 1]));
        assert forall|i: int| 0 <= i < name.drop_last().len() implies #[trigger] name.drop_last()[i]
            != SLASH by {
            assert(name.contains(name[i]));
        }
        lemma_pieces_of_name(front, name.drop_last());
        assert(path.drop_last() =~= front.push(SLASH) + name.drop_last());
        assert(path.last() == name.last());
        let before = pieces(front).push(name.drop_last());
        assert(before.drop_last() =~= pieces(front));
        assert(name.drop_last().push(name.last()) =~= name);
    }
}

proof fn lemma_spelled(names: Seq<Seq<u8>>)
    requires
        forall|i: int| 0 <= i < names.len() ==> proper(#[trigger] names[i]),
    ensures
        pieces(slashed(names)) == seq![Seq::<u8>::empty()] + names,
        names.len() > 0 ==> absolute(slashed(names)),
        parts(seq![Seq::<u8>::empty()] + names) == Seq::new(
            names.len(),
            |i: int| ComponentView::Normal(names[i]),
        ),
    decreases names.len(),
{
    let nothing = seq![Seq::<u8>::empty()];
    if names.len() == 0 {
        assert(nothing + names =~= nothing);
        assert(nothing.drop_last() =~= Seq::<Seq<u8>>::empty());
        assert(parts(nothing.drop_last()) =~= Seq::<ComponentView>::empty());
        assert(parts(nothing) =~= Seq::<ComponentView>::empty());
        assert(Seq::new(0, |i: int| ComponentView::Normal(names[i])) =~= Seq::<
            ComponentView,
        >::empty());
    } else {
        let front = names.drop_last();
        assert forall|i: int| 0 <= i < front.len() implies proper(#[trigger] front[i]) by {
            assert(front[i] == names[i]);
        }
        lemma_spelled(front);
        assert(proper(names[names.len() - 1]));
        lemma_pieces_of_name(slashed(front), names.last());
        assert((nothing + front).push(names.last()) =~= nothing + names);
        assert((nothing + names).drop_last() =~= nothing + front);
        assert(slashed(names)[0] == SLASH) by {
            if front.len() > 0 {
                assert(slashed(names)[0] == slashed(front)[0]);
            }
        }
        assert(parts(nothing + names) =~= Seq::new(
            names.len(),
            |i: int| ComponentView::Normal(names[i]),
        ));
    }
}

proof fn lemma_settle_names(names: Seq<Seq<u8>>)
    ensures
        settle(
            seq![ComponentView::Root] + Seq::new(
                names.len(),
                |i: int| ComponentView::Normal(names[i]),
            ),
        ) == Some(names),
    decreases names.len(),
{
    let root = seq![ComponentView::Root];
    let all = root + Seq::new(names.len(), |i: int| ComponentView::Normal(names[i]));
    if names.len() == 0 {
        assert(all =~= root);
        assert(root.drop_last() =~= Seq::<ComponentView>::empty());
        assert(settle(root.drop_last()) == Some(Seq::<Seq<u8>>::empty()));
        assert(names =~= Seq::<Seq<u8>>::empty());
    } else {
        let front = names.drop_last();
        lemma_settle_names(front);
        assert(all.drop_last() =~= root + Seq::new(
            front.len(),
            |i: int| ComponentView::Normal(front[i]),
        ));
        assert(front.push(names.last()) =~= names);
    }
}

/// A path that is spelled from proper names leads to those names: what is normal
/// stays as it is.
pub proof fn law_spelled_path_is_normal(names: Seq<Seq<u8>>)
    requires
        forall|i: int| 0 <= i < names.len() ==> proper(#[trigger] names[i]),
    ensures
        normal_names(spelled(names)) == Ok::<Seq<Seq<u8>>, SandboxErrorView>(names),
{
    lemma_spelled(names);
    lemma_settle_names(names);
    let path = spelled(names);
    if names.len() == 0 {
        let nothing = Seq::<u8>::empty();
        assert(path.drop_last() =~= nothing);
        assert(pieces(nothing) == seq![nothing]);
        assert(pieces(path) =~= seq![nothing, nothing]);
        assert(seq![nothing, nothing].drop_last() =~= seq![nothing]);
        assert(slashed(names) == nothing);
        assert(seq![nothing] + names =~= seq![nothing]);
    }
    assert(components(path) =~= seq![ComponentView::Root] + Seq::new(
        names.len(),
        |i: int| ComponentView::Normal(names[i]),
    ));
}

/// Two spellings of one place lead to the same names, and only they do.
pub proof fn law_spelling_tells_paths_apart(a: Seq<u8>, b: Seq<u8>)
    requires
        normal_names(a) is Ok,
        normal_names(b) is Ok,
    ensures
        normal_names(a) == normal_names(b) <==> spelled(normal_names(a)->Ok_0) == spelled(
            normal_names(b)->Ok_0,
        ),
        normal_names(spelled(normal_names(a)->Ok_0)) == normal_names(a),
{
    law_normal_names_are_proper(a);
    law_normal_names_are_proper(b);
    law_spelled_path_is_normal(normal_names(a)->Ok_0);
    law_spelled_path_is_normal(normal_names(b)->Ok_0);
}

} // verus!
