//! A blog post that goes from draft to review to publication, each stage its
//! own type, so that only a published post shows its text.
use vstd::prelude::*;
use vstd::string::StringExecFns;

verus! {

/// A published post.
pub struct Post {
    content: String,
}

/// A post being written.
pub struct DraftPost {
    content: String,
}

/// A post waiting for approval.
pub struct PendingReviewPost {
    content: String,
}

impl Post {
    /// The text of the post.
    pub closed spec fn text(&self) -> Seq<char> {
        self.content@
    }

    /// Starts a new post, as an empty draft.
    pub fn new() -> (r: DraftPost)
        ensures
            r.text() == Seq::<char>::empty(),
    {
        DraftPost { content: String::new() }
    }

    /// The text of the published post.
    pub fn content(&self) -> (r: &str)
        ensures
            r@ == self.text(),
    {
        self.content.as_str()
    }
}

impl DraftPost {
    /// The text written so far.
    pub closed spec fn text(&self) -> Seq<char> {
        self.content@
    }

    /// Appends `text` to the draft.
    pub fn add_text(&mut self, text: &str)
        ensures
            final(self).text() == old(self).text() + text@,
    {
        self.content.append(text);
    }

    /// Sends the draft for review.
    pub fn request_review(self) -> (r: PendingReviewPost)
        ensures
            r.text() == self.text(),
    {
        PendingReviewPost { content: self.content }
    }
}

impl PendingReviewPost {
    /// The text under review.
    pub closed spec fn text(&self) -> Seq<char> {
        self.content@
    }

    /// Approves the post, which publishes it.
    pub fn approve(self) -> (r: Post)
        ensures
            r.text() == self.text(),
    {
        Post { content: self.content }
    }
}

} // verus!
