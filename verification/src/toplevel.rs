//! The windows of a compositor.
use vstd::prelude::*;

verus! {

/// A window. `H` is the handle by which the compositor knows it.
#[derive(Debug, Clone)]
pub struct TopLevel<H> {
    pub handle: H,
    pub title: String,
    pub app_id: String,
    pub identifier: String,
    /// The window has not been closed.
    pub active: bool,
}

impl<H> TopLevel<H> {
    /// A window of which nothing but its handle is known yet.
    pub fn new(handle: H) -> (res: Self)
        ensures
            res.handle == handle,
            res.title@ == Seq::<char>::empty(),
            res.app_id@ == Seq::<char>::empty(),
            res.identifier@ == Seq::<char>::empty(),
            res.active,
    {
        TopLevel {
            handle,
            title: String::new(),
            app_id: String::new(),
            identifier: String::new(),
            active: true,
        }
    }

    pub fn title(&self) -> (res: &str)
        ensures
            res@ == self.title@,
    {
        self.title.as_str()
    }

    pub fn app_id(&self) -> (res: &str)
        ensures
            res@ == self.app_id@,
    {
        self.app_id.as_str()
    }

    pub fn identifier(&self) -> (res: &str)
        ensures
            res@ == self.identifier@,
    {
        self.identifier.as_str()
    }

    /// The application and the title, with a space between them.
    pub fn id_and_title(&self) -> (res: String)
        ensures
            res@ == self.app_id@ + " "@ + self.title@,
    {
        let mut text = self.app_id().to_owned();
        text.append(" ");
        text.append(self.title());
        text
    }

    pub fn handle(&self) -> (res: &H)
        ensures
            *res == self.handle,
    {
        &self.handle
    }
}

} // verus!
