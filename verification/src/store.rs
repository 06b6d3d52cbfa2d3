//! The open documents, keyed by the identifier under which the editor
//! knows each.

use vstd::prelude::*;
use crate::completion::{completion_at, completes_at, CompletionItem};
use crate::component::{ComponentIndex, Location};
use crate::definition::{defines_at, goto_definition};
use crate::geometry::Position;
use crate::syntax::{kind_listed, lemma_find_inside_span};
use crate::parse::{nests, reads_rows, template_rows, Document, DocumentModel};
use dashmap::DashMap;

verus! {

/// The documents that a map holds, each under the text of its key.
pub uninterp spec fn open_documents(map: DashMap<String, Document>) -> Map<Seq<char>, DocumentModel>;

/// Every document of the store has a tree whose spans nest.
pub open spec fn all_laid_out(documents: Map<Seq<char>, DocumentModel>) -> bool {
    forall|k: Seq<char>| #[trigger] documents.contains_key(k) ==> documents[k].tree.laid_out()
}

/// The documents of a store that holds nothing.
pub open spec fn no_documents() -> Map<Seq<char>, DocumentModel> {
    Map::empty()
}

/// `DashMap::new`: the map it makes holds nothing.
#[verifier::external_body]
fn documents_new() -> (made: DashMap<String, Document>)
    ensures
        open_documents(made) == no_documents(),
{
    DashMap::new()
}

/// `DashMap::insert`: afterwards the map holds `document` under `key`, in
/// place of what stood there, and every other entry as before.
#[verifier::external_body]
fn documents_insert(map: &mut DashMap<String, Document>, key: String, document: Document)
    ensures
        open_documents(*final(map)) == open_documents(*old(map)).insert(key@, document@),
{
    map.insert(key, document);
}

/// `DashMap::remove`, what it hands back dropped: afterwards the map holds
/// nothing under `key`, and every other entry as before.
#[verifier::external_body]
fn documents_remove(map: &mut DashMap<String, Document>, key: &str)
    ensures
        open_documents(*final(map)) == open_documents(*old(map)).remove(key@),
{
    map.remove(key);
}

/// `DashMap::get`, with the entry's value cloned out of the guard: the
/// document held under `key`, or `None` where the map holds none.
#[verifier::external_body]
fn documents_get(map: &DashMap<String, Document>, key: &str) -> (found: Option<Document>)
    ensures
        match found {
            Some(d) => open_documents(*map).contains_key(key@) && d@ == open_documents(*map)[key@],
            None => !open_documents(*map).contains_key(key@),
        },
{
    map.get(key).map(|entry| entry.value().clone())
}

/// The open documents.
pub struct DocumentStore {
    map: DashMap<String, Document>,
}

impl View for DocumentStore {
    type V = Map<Seq<char>, DocumentModel>;

    closed spec fn view(&self) -> Map<Seq<char>, DocumentModel> {
        open_documents(self.map)
    }
}

impl DocumentStore {
    /// A store with no open document.
    pub fn new() -> (store: DocumentStore)
        ensures
            store@ == no_documents(),
            all_laid_out(store@),
    {
        DocumentStore { map: documents_new() }
    }

    /// Replaces the document under `uri` by one for the full text `text`:
    /// buffer and tree change together, and every other document stays.
    /// The document is stored exactly where the template parser gives a
    /// tree for the text whose spans nest, and its arena holds the nodes of
    /// that parse; otherwise the store is left as it was.
    pub fn on_change(&mut self, uri: &str, text: &str) -> (stored: bool)
        ensures
            stored == (template_rows(text@) is Some && nests(template_rows(text@)->Some_0)),
            all_laid_out(old(self)@) ==> all_laid_out(final(self)@),
            stored ==> final(self)@.contains_key(uri@) && final(self)@[uri@].text == text@
                && final(self)@[uri@].tree.laid_out()
                && reads_rows(final(self)@[uri@].tree, template_rows(text@)->Some_0)
                && final(self)@ == old(self)@.insert(uri@, final(self)@[uri@]),
            !stored ==> final(self)@ == old(self)@,
    {
        let stored = self.put(uri, Document::open(text));
        assert(stored ==> self@ =~= old(self)@.insert(uri@, self@[uri@]));
        stored
    }

    /// Puts `document`, where there is one, in the place of the document
    /// under `uri`; every other document stays. Where there is none the
    /// store is left as it was, and `false` comes back.
    fn put(&mut self, uri: &str, document: Option<Document>) -> (stored: bool)
        ensures
            stored == document is Some,
            document matches Some(d) ==> final(self)@ == old(self)@.insert(uri@, d@),
            document is None ==> final(self)@ == old(self)@,
    {
        match document {
            Some(document) => {
                documents_insert(&mut self.map, uri.to_owned(), document);
                true
            },
            None => false,
        }
    }

    /// Forgets the document under `uri`.
    pub fn close(&mut self, uri: &str)
        ensures
            final(self)@ == old(self)@.remove(uri@),
            all_laid_out(old(self)@) ==> all_laid_out(final(self)@),
    {
        documents_remove(&mut self.map, uri);
    }

    /// The document under `uri`, if one is open.
    pub fn get(&self, uri: &str) -> (found: Option<Document>)
        ensures
            match found {
                Some(d) => self@.contains_key(uri@) && d@ == self@[uri@],
                None => !self@.contains_key(uri@),
            },
    {
        documents_get(&self.map, uri)
    }

    /// The completions at a position of the document under `uri`: `None`
    /// where no such document is open or the position has no offset in it.
    pub fn completion(
        &self,
        uri: &str,
        position: Position,
        components: &ComponentIndex,
    ) -> (found: Option<Vec<CompletionItem>>)
        ensures
            !self@.contains_key(uri@) ==> found is None,
            self@.contains_key(uri@) ==> completes_at(
                &self@[uri@].tree,
                self@[uri@].text,
                position,
                components@,
                found,
            ),
    {
        match self.get(uri) {
            Some(document) => completion_at(document.tree(), document.text(), position, components),
            None => None,
        }
    }

    /// The definition for a position of the document under `uri`: `None`
    /// where no such document is open, the position has no offset in it, or
    /// no known tag stands there.
    pub fn goto_definition(
        &self,
        uri: &str,
        position: Position,
        components: &ComponentIndex,
    ) -> (location: Option<Location>)
        ensures
            !self@.contains_key(uri@) ==> location is None,
            self@.contains_key(uri@) ==> defines_at(
                &self@[uri@].tree,
                self@[uri@].text,
                position,
                components@,
                location,
            ),
    {
        match self.get(uri) {
            Some(document) => goto_definition(document.tree(), document.text(), position, components),
            None => None,
        }
    }
}

/// In a store whose documents are all laid out, the search in the tree of
/// the document under `uri`, for an offset strictly inside the span of a
/// listed node `n` below `root`, returns `n` itself, provided that no
/// ancestor of `n` has a listed kind too.
pub proof fn lemma_find_in_stored_document(
    documents: Map<Seq<char>, DocumentModel>,
    uri: Seq<char>,
    root: usize,
    n: usize,
    offset: usize,
    kinds: Seq<Seq<char>>,
)
    requires
        all_laid_out(documents),
        documents.contains_key(uri),
        documents[uri].tree.in_subtree(root, n),
        kind_listed(kinds, documents[uri].tree.nodes@[n as int].kind@),
        documents[uri].tree.nodes@[n as int].start_byte < offset
            < documents[uri].tree.nodes@[n as int].end_byte,
        forall|m: usize| #[trigger]
            documents[uri].tree.in_subtree(m, n) && m != n ==> !kind_listed(
                kinds,
                documents[uri].tree.nodes@[m as int].kind@,
            ),
    ensures
        documents[uri].tree.locate(root, true, offset, kinds) == Some(n),
{
    lemma_find_inside_span(&documents[uri].tree, root, n, offset, kinds);
}

} // verus!
