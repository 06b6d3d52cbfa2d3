//! Turning the captures of a structural query over a source file into
//! component records, and filing them in the index.

use vstd::prelude::*;
use vstd::string::StringExecFns;
use crate::component::{keyed_by_selector, Component, ComponentIndex, ComponentModel};
use crate::geometry::{range_of, to_range, SourceRange};

verus! {

/// A class member that a marker precedes: the marker's name and the
/// member's.
#[derive(Clone, Debug, PartialEq, Eq)]
pub struct MemberCapture {
    pub marker: String,
    pub name: String,
}

/// A component declaration as the query reports it: the selector's text,
/// the span of the class name, and the marked members in source order.
#[derive(Clone, Debug, PartialEq, Eq)]
pub struct ComponentCapture {
    pub selector: String,
    pub class_name_range: SourceRange,
    pub members: Vec<MemberCapture>,
}

/// A match of the member query as it comes from the parser: the texts of
/// the marker and of the member's name, each where the match holds it.
#[derive(Clone, Debug, PartialEq, Eq)]
pub struct RawMember {
    pub marker: Option<String>,
    pub name: Option<String>,
}

/// A match of the component query as it comes from the parser: the
/// selector's text, the span of the class name, and the marked members
/// below the declaration, each where the match holds it.
#[derive(Clone, Debug, PartialEq, Eq)]
pub struct RawDeclaration {
    pub selector: Option<String>,
    pub class_name_range: Option<SourceRange>,
    pub members: Option<Vec<MemberCapture>>,
}

/// What a member match holds, as plain values.
pub ghost struct MemberTexts {
    pub marker: Option<Seq<char>>,
    pub name: Option<Seq<char>>,
}

impl View for RawMember {
    type V = MemberTexts;

    open spec fn view(&self) -> MemberTexts {
        MemberTexts {
            marker: match self.marker {
                Some(t) => Some(t@),
                None => None,
            },
            name: match self.name {
                Some(t) => Some(t@),
                None => None,
            },
        }
    }
}

/// What a list of member matches holds.
pub open spec fn raw_member_models(raw: Seq<RawMember>) -> Seq<MemberTexts> {
    Seq::new(raw.len(), |k: int| raw[k]@)
}

/// What a list of members says: for each the texts of its marker and of
/// its name.
pub open spec fn member_models(members: Seq<MemberCapture>) -> Seq<(Seq<char>, Seq<char>)> {
    Seq::new(members.len(), |k: int| (members[k].marker@, members[k].name@))
}

/// Whether a member match holds both its marker and its name.
pub open spec fn member_complete(raw: MemberTexts) -> bool {
    raw.marker is Some && raw.name is Some
}

/// The members that the complete ones among `raw` give, in order.
pub open spec fn kept_members(raw: Seq<MemberTexts>) -> Seq<(Seq<char>, Seq<char>)>
    decreases raw.len(),
{
    if raw.len() == 0 {
        Seq::empty()
    } else {
        let rest = kept_members(raw.drop_last());
        if member_complete(raw.last()) {
            rest.push((raw.last().marker->Some_0, raw.last().name->Some_0))
        } else {
            rest
        }
    }
}

/// What a component match holds, as plain values.
pub ghost struct RawModel {
    pub selector: Option<Seq<char>>,
    pub class_name_range: Option<SourceRange>,
    pub members: Option<Seq<(Seq<char>, Seq<char>)>>,
}

impl View for RawDeclaration {
    type V = RawModel;

    open spec fn view(&self) -> RawModel {
        RawModel {
            selector: match self.selector {
                Some(t) => Some(t@),
                None => None,
            },
            class_name_range: self.class_name_range,
            members: match self.members {
                Some(m) => Some(member_models(m@)),
                None => None,
            },
        }
    }
}

/// What a list of component matches holds.
pub open spec fn raw_models(raw: Seq<RawDeclaration>) -> Seq<RawModel> {
    Seq::new(raw.len(), |k: int| raw[k]@)
}

/// Whether a component match holds its selector, its class name and its
/// declaration.
pub open spec fn declaration_complete(raw: RawModel) -> bool {
    raw.selector is Some && raw.class_name_range is Some && raw.members is Some
}

/// What a list of component captures says: for each its selector's text,
/// the span of its class name and its members.
pub open spec fn capture_models(captures: Seq<ComponentCapture>) -> Seq<
    (Seq<char>, SourceRange, Seq<(Seq<char>, Seq<char>)>),
> {
    Seq::new(
        captures.len(),
        |k: int|
            (
                captures[k].selector@,
                captures[k].class_name_range,
                member_models(captures[k].members@),
            ),
    )
}

/// What the complete ones among `raw` declare, in order: a match that
/// lacks a part is passed over.
pub open spec fn kept_declarations(raw: Seq<RawModel>) -> Seq<
    (Seq<char>, SourceRange, Seq<(Seq<char>, Seq<char>)>),
>
    decreases raw.len(),
{
    if raw.len() == 0 {
        Seq::empty()
    } else {
        let rest = kept_declarations(raw.drop_last());
        if declaration_complete(raw.last()) {
            rest.push(
                (
                    raw.last().selector->Some_0,
                    raw.last().class_name_range->Some_0,
                    raw.last().members->Some_0,
                ),
            )
        } else {
            rest
        }
    }
}

/// Keeps the member matches that hold both marker and name, in order.
pub fn marked_members(raw: &Vec<RawMember>) -> (members: Vec<MemberCapture>)
    ensures
        member_models(members@) == kept_members(raw_member_models(raw@)),
{
    let mut members: Vec<MemberCapture> = Vec::new();
    let mut k: usize = 0;
    assert(raw_member_models(raw@).take(0) =~= Seq::<MemberTexts>::empty());
    while k < raw.len()
        invariant
            k <= raw@.len(),
            member_models(members@) =~= kept_members(raw_member_models(raw@).take(k as int)),
        decreases raw@.len() - k,
    {
        assert(raw_member_models(raw@).take(k + 1).drop_last() =~= raw_member_models(raw@).take(
            k as int,
        ));
        assert(raw_member_models(raw@).take(k + 1).last() == raw@[k as int]@);
        match (&raw[k].marker, &raw[k].name) {
            (Some(marker), Some(name)) => {
                members.push(MemberCapture { marker: marker.clone(), name: name.clone() });
            },
            _ => {},
        }
        k = k + 1;
    }
    assert(raw_member_models(raw@).take(k as int) =~= raw_member_models(raw@));
    members
}

/// A list that holds the same members.
fn copy_members(members: &Vec<MemberCapture>) -> (copy: Vec<MemberCapture>)
    ensures
        copy@ == members@,
{
    let mut copy: Vec<MemberCapture> = Vec::new();
    let mut k: usize = 0;
    while k < members.len()
        invariant
            k <= members@.len(),
            copy@ =~= members@.take(k as int),
        decreases members@.len() - k,
    {
        copy.push(
            MemberCapture { marker: members[k].marker.clone(), name: members[k].name.clone() },
        );
        k = k + 1;
    }
    assert(members@.take(k as int) =~= members@);
    copy
}

/// Keeps the component matches that hold selector, class name and
/// declaration, in order, each with its members.
pub fn declared_components(raw: &Vec<RawDeclaration>) -> (captures: Vec<ComponentCapture>)
    ensures
        capture_models(captures@) == kept_declarations(raw_models(raw@)),
{
    let mut captures: Vec<ComponentCapture> = Vec::new();
    let mut k: usize = 0;
    assert(raw_models(raw@).take(0) =~= Seq::<RawModel>::empty());
    while k < raw.len()
        invariant
            k <= raw@.len(),
            capture_models(captures@) =~= kept_declarations(raw_models(raw@).take(k as int)),
        decreases raw@.len() - k,
    {
        assert(raw_models(raw@).take(k + 1).drop_last() =~= raw_models(raw@).take(k as int));
        assert(raw_models(raw@).take(k + 1).last() == raw@[k as int]@);
        match (&raw[k].selector, &raw[k].class_name_range, &raw[k].members) {
            (Some(selector), Some(range), Some(members)) => {
                captures.push(
                    ComponentCapture {
                        selector: selector.clone(),
                        class_name_range: *range,
                        members: copy_members(members),
                    },
                );
            },
            _ => {},
        }
        k = k + 1;
    }
    assert(raw_models(raw@).take(k as int) =~= raw_models(raw@));
    captures
}

/// The names of the members whose marker reads `marker`, in the order of
/// `members`. A member under any other marker is passed over.
pub open spec fn names_marked(members: Seq<MemberCapture>, marker: Seq<char>) -> Seq<Seq<char>>
    decreases members.len(),
{
    if members.len() == 0 {
        Seq::empty()
    } else {
        let rest = names_marked(members.drop_last(), marker);
        if members.last().marker@ == marker {
            rest.push(members.last().name@)
        } else {
            rest
        }
    }
}

/// The component that a capture in file `file` declares.
pub open spec fn declared(file: Seq<char>, capture: ComponentCapture) -> ComponentModel {
    ComponentModel {
        selector: capture.selector@,
        file: file,
        class_name_range: range_of(capture.class_name_range),
        inputs: names_marked(capture.members@, "Input"@),
        outputs: names_marked(capture.members@, "Output"@),
    }
}

/// The index after the first `count` of `captures` have been filed, one
/// after the other.
pub open spec fn filed(
    entries: Map<Seq<char>, ComponentModel>,
    file: Seq<char>,
    captures: Seq<ComponentCapture>,
    count: nat,
) -> Map<Seq<char>, ComponentModel>
    decreases count,
{
    if count == 0 || count > captures.len() {
        entries
    } else {
        let before = filed(entries, file, captures, (count - 1) as nat);
        let capture = captures[count - 1];
        before.insert(capture.selector@, declared(file, capture))
    }
}

/// The names of the members whose marker reads `marker`, among members
/// given by the texts of marker and name.
pub open spec fn names_in(members: Seq<(Seq<char>, Seq<char>)>, marker: Seq<char>) -> Seq<
    Seq<char>,
>
    decreases members.len(),
{
    if members.len() == 0 {
        Seq::empty()
    } else {
        let rest = names_in(members.drop_last(), marker);
        if members.last().0 == marker {
            rest.push(members.last().1)
        } else {
            rest
        }
    }
}

/// The component that a declaration found in file `file` declares, the
/// declaration given by its selector, the span of its class name and its
/// members.
pub open spec fn declared_by(
    file: Seq<char>,
    declaration: (Seq<char>, SourceRange, Seq<(Seq<char>, Seq<char>)>),
) -> ComponentModel {
    ComponentModel {
        selector: declaration.0,
        file: file,
        class_name_range: range_of(declaration.1),
        inputs: names_in(declaration.2, "Input"@),
        outputs: names_in(declaration.2, "Output"@),
    }
}

/// The index after the first `count` of `declarations` have been filed,
/// one after the other.
pub open spec fn filed_from(
    entries: Map<Seq<char>, ComponentModel>,
    file: Seq<char>,
    declarations: Seq<(Seq<char>, SourceRange, Seq<(Seq<char>, Seq<char>)>)>,
    count: nat,
) -> Map<Seq<char>, ComponentModel>
    decreases count,
{
    if count == 0 || count > declarations.len() {
        entries
    } else {
        let before = filed_from(entries, file, declarations, (count - 1) as nat);
        before.insert(declarations[count - 1].0, declared_by(file, declarations[count - 1]))
    }
}

/// The names under a marker depend on the texts of the members alone.
pub proof fn lemma_names_by_texts(members: Seq<MemberCapture>, marker: Seq<char>)
    ensures
        names_marked(members, marker) == names_in(member_models(members), marker),
    decreases members.len(),
{
    if members.len() > 0 {
        lemma_names_by_texts(members.drop_last(), marker);
        assert(member_models(members).drop_last() =~= member_models(members.drop_last()));
    }
}

/// A filing depends on what the captures say alone.
pub proof fn lemma_filed_by_models(
    entries: Map<Seq<char>, ComponentModel>,
    file: Seq<char>,
    captures: Seq<ComponentCapture>,
    count: nat,
)
    requires
        count <= captures.len(),
    ensures
        filed(entries, file, captures, count) == filed_from(
            entries,
            file,
            capture_models(captures),
            count,
        ),
    decreases count,
{
    if count > 0 {
        lemma_filed_by_models(entries, file, captures, (count - 1) as nat);
        lemma_names_by_texts(captures[count - 1].members@, "Input"@);
        lemma_names_by_texts(captures[count - 1].members@, "Output"@);
    }
}

/// Sorts marked members into inputs and outputs, keeping source order in
/// each: a member is an input where its marker reads `Input`, an output
/// where it reads `Output`, and is listed nowhere under any other marker.
pub fn classify_members(members: &Vec<MemberCapture>) -> (lists: (Vec<String>, Vec<String>))
    ensures
        crate::syntax::texts(lists.0@) == names_marked(members@, "Input"@),
        crate::syntax::texts(lists.1@) == names_marked(members@, "Output"@),
{
    let mut inputs: Vec<String> = Vec::new();
    let mut outputs: Vec<String> = Vec::new();
    let input = String::from_str("Input");
    let output = String::from_str("Output");
    proof {
        reveal_strlit("Input");
        reveal_strlit("Output");
        assert("Input"@.len() != "Output"@.len());
    }
    let mut k: usize = 0;
    assert(members@.take(0) =~= Seq::<MemberCapture>::empty());
    while k < members.len()
        invariant
            k <= members@.len(),
            input@ == "Input"@,
            output@ == "Output"@,
            "Input"@ != "Output"@,
            crate::syntax::texts(inputs@) =~= names_marked(members@.take(k as int), "Input"@),
            crate::syntax::texts(outputs@) =~= names_marked(members@.take(k as int), "Output"@),
        decreases members@.len() - k,
    {
        assert(members@.take(k + 1).drop_last() =~= members@.take(k as int));
        assert(members@.take(k + 1).last() == members@[k as int]);
        if members[k].marker == input {
            inputs.push(members[k].name.clone());
        } else if members[k].marker == output {
            outputs.push(members[k].name.clone());
        }
        k = k + 1;
    }
    assert(members@.take(k as int) =~= members@);
    (inputs, outputs)
}

/// Builds the component that `capture`, found in file `file`, declares.
pub fn build_component(file: &str, capture: &ComponentCapture) -> (component: Component)
    ensures
        component@ == declared(file@, *capture),
{
    let (inputs, outputs) = classify_members(&capture.members);
    Component {
        selector: capture.selector.clone(),
        file: String::from_str(file),
        class_name_range: to_range(capture.class_name_range),
        inputs: inputs,
        outputs: outputs,
    }
}

/// Files the component of each capture, in order: a later one replaces an
/// earlier one with the same selector.
pub fn file_components(
    components: &mut ComponentIndex,
    file: &str,
    captures: &Vec<ComponentCapture>,
)
    ensures
        final(components)@ == filed(old(components)@, file@, captures@, captures@.len()),
        keyed_by_selector(old(components)@) ==> keyed_by_selector(final(components)@),
{
    let mut k: usize = 0;
    while k < captures.len()
        invariant
            k <= captures@.len(),
            components@ == filed(old(components)@, file@, captures@, k as nat),
            keyed_by_selector(old(components)@) ==> keyed_by_selector(components@),
        decreases captures@.len() - k,
    {
        let component = build_component(file, &captures[k]);
        components.insert(component);
        k = k + 1;
    }
}

/// The place, among the first `count` of `captures`, of the last one whose
/// selector reads `selector`; `-1` where there is none.
pub open spec fn last_capture(captures: Seq<ComponentCapture>, count: nat, selector: Seq<char>)
    -> int
    decreases count,
{
    if count == 0 || count > captures.len() {
        -1
    } else if captures[count - 1].selector@ == selector {
        count - 1
    } else {
        last_capture(captures, (count - 1) as nat, selector)
    }
}

/// After a filing, a selector that some capture bears holds the component
/// of the last such capture, and every other selector holds what it held
/// before.
pub proof fn lemma_filed_entries(
    entries: Map<Seq<char>, ComponentModel>,
    file: Seq<char>,
    captures: Seq<ComponentCapture>,
    count: nat,
    selector: Seq<char>,
)
    requires
        count <= captures.len(),
    ensures
        -1 <= last_capture(captures, count, selector) < count,
        last_capture(captures, count, selector) >= 0 ==> filed(
            entries,
            file,
            captures,
            count,
        ).contains_key(selector) && filed(entries, file, captures, count)[selector] == declared(
            file,
            captures[last_capture(captures, count, selector)],
        ),
        last_capture(captures, count, selector) < 0 ==> (filed(
            entries,
            file,
            captures,
            count,
        ).contains_key(selector) <==> entries.contains_key(selector)) && filed(
            entries,
            file,
            captures,
            count,
        )[selector] == entries[selector],
    decreases count,
{
    if count > 0 {
        lemma_filed_entries(entries, file, captures, (count - 1) as nat, selector);
    }
}

/// Filing the same captures of the same file a second time leaves the
/// index as the first filing left it.
pub proof fn lemma_filing_twice(
    entries: Map<Seq<char>, ComponentModel>,
    file: Seq<char>,
    captures: Seq<ComponentCapture>,
)
    ensures
        filed(filed(entries, file, captures, captures.len()), file, captures, captures.len())
            == filed(entries, file, captures, captures.len()),
{
    let once = filed(entries, file, captures, captures.len());
    let twice = filed(once, file, captures, captures.len());
    assert forall|k: Seq<char>| #[trigger] twice.dom().contains(k) == once.dom().contains(k) by {
        lemma_filed_entries(entries, file, captures, captures.len(), k);
        lemma_filed_entries(once, file, captures, captures.len(), k);
    }
    assert forall|k: Seq<char>| once.dom().contains(k) implies #[trigger] twice[k] == once[k] by {
        lemma_filed_entries(entries, file, captures, captures.len(), k);
        lemma_filed_entries(once, file, captures, captures.len(), k);
    }
    assert(twice =~= once);
}

} // verus!
