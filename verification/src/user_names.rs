use vstd::prelude::*;

verus! {

/// The name of a user.
#[derive(Debug)]
pub struct UserName(String);

/// A name is seen as its characters.
impl View for UserName {
    type V = Seq<char>;

    closed spec fn view(&self) -> Seq<char> {
        self.0@
    }
}

impl Clone for UserName {
    fn clone(&self) -> (copy: Self)
        ensures
            copy == *self,
    {
        UserName(self.0.clone())
    }
}

impl UserName {
    pub fn new(value: &str) -> (name: Self)
        ensures
            name@ == value@,
    {
        Self(value.to_owned())
    }
}

/// A list of user names, in the order in which they were added.
#[derive(Debug)]
pub struct UserNames(Vec<UserName>);

/// The list is seen as the sequence of its names.
impl View for UserNames {
    type V = Seq<UserName>;

    closed spec fn view(&self) -> Seq<UserName> {
        self.0@
    }
}

impl Clone for UserNames {
    fn clone(&self) -> (copy: Self)
        ensures
            copy@ == self@,
    {
        let mut names: Vec<UserName> = Vec::new();
        names.extend_from_slice(self.0.as_slice());
        assert(names@ =~= self.0@);
        UserNames(names)
    }
}

impl UserNames {
    pub fn new() -> (names: Self)
        ensures
            names@ == Seq::<UserName>::empty(),
    {
        Self(Vec::new())
    }

    /// Adds the name at the end of the list, which the caller keeps.
    pub fn add_user_name0(&mut self, user_name: UserName)
        ensures
            final(self)@ == old(self)@.push(user_name),
    {
        self.0.push(user_name);
    }

    /// Takes the name and leaves the list as it is.
    pub fn add_user_name1(&mut self, user_name: UserName)
        ensures
            final(self)@ == old(self)@,
    {
    }

    /// Takes the list and the name, and gives neither back: the list that
    /// the name was added to ends with this call.
    pub fn add_user_name2(self, user_name: UserName) {
        let mut names = self;
        names.0.push(user_name);
    }
}

} // verus!
