//! Pure root-first application declarations.

use vstd::prelude::*;

verus! {

/// One statically typed local application declaration.
///
/// `Root` owns the application behavior. `Members` is the product of the
/// declared children, the one declared last first.
#[derive(Debug, Clone, Copy, PartialEq, Eq)]
pub struct Application<Root, Members> {
    root: Root,
    members: Members,
}

impl<Root, Members> Application<Root, Members> {
    /// The declared root.
    pub closed spec fn root_view(self) -> Root {
        self.root
    }

    /// The declared children.
    pub closed spec fn members_view(self) -> Members {
        self.members
    }
}

impl<Root> Application<Root, ()> {
    /// Declare one concrete root behavior for local execution.
    pub fn new(root: Root) -> (application: Self)
        ensures
            application.root_view() == root,
            application.members_view() == (),
    {
        Application { root, members: () }
    }
}

impl<Root, Members> Application<Root, Members> {
    /// Declare one application-owned actor under a nominal semantic role.
    pub fn child<Role, Actor>(self, role: Role, actor: Actor) -> (application: Application<
        Root,
        (Role, Actor, Members),
    >)
        ensures
            application.root_view() == self.root_view(),
            application.members_view() == (role, actor, self.members_view()),
    {
        Application { root: self.root, members: (role, actor, self.members) }
    }

    /// Borrow the root before execution begins.
    pub fn root(&self) -> (root: &Root)
        ensures
            *root == self.root_view(),
    {
        &self.root
    }

    /// The root and the declared children.
    pub fn into_parts(self) -> (parts: (Root, Members))
        ensures
            parts == (self.root_view(), self.members_view()),
    {
        (self.root, self.members)
    }
}

} // verus!
