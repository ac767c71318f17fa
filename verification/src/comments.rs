//! Comments and the store that numbers them.

use crate::lookup::{
    first_with_key, has_key, is_first_with_key, lemma_first_is_unique, lemma_next_id_is_new,
    numbered, Keyed, NotFound,
};
use vstd::prelude::*;

verus! {

/// A remark with a title.
#[derive(Debug)]
pub struct Comment {
    pub id: Option<u32>,
    pub title: String,
    pub content: String,
}

/// A comment as the mathematics sees it.
pub struct CommentView {
    pub id: Option<u32>,
    pub title: Seq<char>,
    pub content: Seq<char>,
}

impl View for Comment {
    type V = CommentView;

    open spec fn view(&self) -> CommentView {
        CommentView { id: self.id, title: self.title@, content: self.content@ }
    }
}

impl DeepView for Comment {
    type V = CommentView;

    open spec fn deep_view(&self) -> CommentView {
        self@
    }
}

impl Keyed<Option<u32>> for CommentView {
    open spec fn key(&self) -> Option<u32> {
        self.id
    }
}

impl Clone for Comment {
    fn clone(&self) -> (copy: Self)
        ensures
            copy == *self,
    {
        Comment { id: self.id, title: self.title.clone(), content: self.content.clone() }
    }
}

impl CommentView {
    /// The comment under the id `id`, whatever id it carried.
    pub open spec fn with_id(self, id: u32) -> CommentView {
        CommentView { id: Some(id), ..self }
    }
}

/// The comments, in the order in which they were added. The comment at
/// place `i` carries the id `i + 1`.
pub struct CommentStore {
    records: Vec<Comment>,
}

impl View for CommentStore {
    type V = Seq<CommentView>;

    closed spec fn view(&self) -> Seq<CommentView> {
        self.records.deep_view()
    }
}

impl CommentStore {
    /// What every store keeps to: the comment at place `i` carries the id
    /// `i + 1`.
    pub open spec fn wf(&self) -> bool {
        numbered(self@)
    }

    /// A store without comments.
    pub fn new() -> (store: CommentStore)
        ensures
            store.wf(),
            store@ == Seq::<CommentView>::empty(),
    {
        CommentStore { records: Vec::new() }
    }

    /// The number of comments.
    pub fn len(&self) -> (count: usize)
        ensures
            count == self@.len(),
    {
        self.records.len()
    }

    /// A copy of all comments, in the order in which they were added.
    pub fn list(&self) -> (comments: Vec<Comment>)
        ensures
            comments.deep_view() == self@,
            comments.len() == self@.len(),
            forall|i: int| 0 <= i < comments.len() ==> (#[trigger] comments[i])@ == self@[i],
    {
        let mut comments: Vec<Comment> = Vec::new();
        let mut i: usize = 0;
        while i < self.records.len()
            invariant
                i <= self.records.len(),
                comments.len() == i,
                forall|j: int| 0 <= j < i ==> comments[j]@ == self.records[j]@,
            decreases self.records.len() - i,
        {
            comments.push(self.records[i].clone());
            i += 1;
        }
        assert(comments.deep_view() =~= self.records.deep_view());
        comments
    }

    /// The place of the first comment with `id`.
    fn position(&self, id: u32) -> (at: Option<usize>)
        ensures
            at matches Some(i) ==> is_first_with_key(self@, Some(id), i as int),
            at is None ==> !has_key(self@, Some(id)),
    {
        let mut i: usize = 0;
        while i < self.records.len()
            invariant
                i <= self.records.len(),
                forall|j: int| 0 <= j < i ==> (#[trigger] self@[j]).key() != Some(id),
            decreases self.records.len() - i,
        {
            if self.records[i].id == Some(id) {
                return Some(i);
            }
            i += 1;
        }
        None
    }

    /// Adds `comment` under the next id and hands back the stored record.
    /// What the caller wrote as id is ignored.
    pub fn add(&mut self, comment: Comment) -> (added: Comment)
        requires
            old(self).wf(),
            old(self)@.len() < u32::MAX,
        ensures
            final(self).wf(),
            added@ == comment@.with_id((old(self)@.len() + 1) as u32),
            final(self)@ == old(self)@.push(added@),
            !has_key(old(self)@, added.id),
    {
        let id: u32 = self.records.len() as u32 + 1;
        let stored = Comment { id: Some(id), title: comment.title, content: comment.content };
        let copy = stored.clone();
        self.records.push(stored);
        assert(self.records.deep_view() =~= old(self).records.deep_view().push(copy@));
        proof {
            lemma_next_id_is_new(old(self)@, copy@);
        }
        copy
    }

    /// Puts `replacement` in the place of the comment with `id`: title and
    /// content are the replacement's, the id stays `id` whatever the
    /// replacement carries. Where no comment carries `id`, nothing changes.
    pub fn update(&mut self, id: u32, replacement: Comment) -> (updated: Result<Comment, NotFound>)
        requires
            old(self).wf(),
        ensures
            final(self).wf(),
            updated is Ok <==> has_key(old(self)@, Some(id)),
            updated is Ok ==> is_first_with_key(
                old(self)@,
                Some(id),
                first_with_key(old(self)@, Some(id)),
            ),
            updated matches Ok(stored) ==> stored@ == replacement@.with_id(id) && final(self)@
                == old(self)@.update(first_with_key(old(self)@, Some(id)), stored@),
            updated is Err ==> final(self)@ == old(self)@,
    {
        match self.position(id) {
            Some(i) => {
                proof {
                    lemma_first_is_unique(self@, Some(id), i as int);
                }
                let stored = Comment {
                    id: Some(id),
                    title: replacement.title,
                    content: replacement.content,
                };
                let copy = stored.clone();
                self.records[i] = stored;
                assert(self.records.deep_view() =~= old(self).records.deep_view().update(
                    i as int,
                    copy@,
                ));
                Ok(copy)
            },
            None => Err(NotFound),
        }
    }
}

} // verus!
