//! A configuration builder whose state says which fields are set, and
//! capability tokens that must be acquired in order.
use vstd::prelude::*;
use core::marker::PhantomData;
use crate::dup::opt_view;

verus! {

/// State: no field is set.
pub struct BuilderEmpty;

/// State: the name is set.
pub struct BuilderWithName;

/// State: every required field is set.
pub struct BuilderComplete;

/// A configuration builder that uses typestate to ensure that the required
/// fields are set before a configuration is built.
pub struct Builder<S> {
    name: Option<String>,
    description: Option<String>,
    timeout: Option<u64>,
    _state: PhantomData<S>,
}

impl<S> Builder<S> {
    /// The name set so far.
    pub closed spec fn name_of(&self) -> Option<Seq<char>> {
        opt_view(self.name)
    }

    /// The description set so far.
    pub closed spec fn description_of(&self) -> Option<Seq<char>> {
        opt_view(self.description)
    }

    /// The timeout set so far.
    pub closed spec fn timeout_of(&self) -> Option<u64> {
        self.timeout
    }
}

impl Builder<BuilderEmpty> {
    /// A builder with no field set.
    pub fn new() -> (res: Self)
        ensures
            res.name_of() is None,
            res.description_of() is None,
            res.timeout_of() is None,
    {
        Builder { name: None, description: None, timeout: None, _state: PhantomData }
    }

    /// Sets the name, the required field.
    pub fn name(self, name: String) -> (res: Builder<BuilderWithName>)
        ensures
            res.name_of() == Some(name@),
            res.description_of() == self.description_of(),
            res.timeout_of() == self.timeout_of(),
    {
        Builder { name: Some(name), description: self.description, timeout: self.timeout, _state: PhantomData }
    }
}

impl Builder<BuilderWithName> {
    /// Sets the description.
    pub fn description(self, description: String) -> (res: Self)
        ensures
            res.name_of() == self.name_of(),
            res.description_of() == Some(description@),
            res.timeout_of() == self.timeout_of(),
    {
        Builder { name: self.name, description: Some(description), timeout: self.timeout, _state: PhantomData }
    }

    /// Sets the timeout.
    pub fn timeout(self, timeout: u64) -> (res: Self)
        ensures
            res.name_of() == self.name_of(),
            res.description_of() == self.description_of(),
            res.timeout_of() == Some(timeout),
    {
        Builder { name: self.name, description: self.description, timeout: Some(timeout), _state: PhantomData }
    }

    /// Marks the builder complete.
    pub fn complete(self) -> (res: Builder<BuilderComplete>)
        ensures
            res.name_of() == self.name_of(),
            res.description_of() == self.description_of(),
            res.timeout_of() == self.timeout_of(),
    {
        Builder { name: self.name, description: self.description, timeout: self.timeout, _state: PhantomData }
    }
}

/// The configuration a builder makes.
pub struct Config {
    pub name: String,
    pub description: String,
    pub timeout: u64,
}

impl Builder<BuilderComplete> {
    /// The configuration: the name, the description or `No description`,
    /// the timeout or 30.
    pub fn build(self) -> (res: Config)
        requires
            self.name_of() is Some,
        ensures
            Some(res.name@) == self.name_of(),
            res.description@ == match self.description_of() {
                Some(d) => d,
                None => "No description"@,
            },
            res.timeout == match self.timeout_of() {
                Some(t) => t,
                None => 30,
            },
    {
        let name = match self.name {
            Some(n) => n,
            None => String::new(),
        };
        let description = match self.description {
            Some(d) => d,
            None => String::from_str("No description"),
        };
        let timeout = match self.timeout {
            Some(t) => t,
            None => 30,
        };
        Config { name, description, timeout }
    }
}

impl Default for Builder<BuilderEmpty> {
    fn default() -> (res: Self) {
        Builder::new()
    }
}

/// A capability token: operations need a token of a given level, and
/// levels are acquired in order.
pub struct Token {
    level: u8,
}

impl Token {
    /// The token's level.
    pub closed spec fn level(&self) -> u8 {
        self.level
    }

    /// A level 1 token.
    pub fn level1() -> (res: Self)
        ensures
            res.level() == 1,
    {
        Token { level: 1 }
    }

    /// Trades a level 1 token for a level 2 one.
    pub fn upgrade_to_level2(self) -> (res: Token)
        requires
            self.level() == 1,
        ensures
            res.level() == 2,
    {
        Token { level: 2 }
    }

    /// Trades a level 2 token for a level 3 one.
    pub fn upgrade_to_level3(self) -> (res: Token)
        requires
            self.level() == 2,
        ensures
            res.level() == 3,
    {
        Token { level: 3 }
    }

    /// An operation that needs a level 3 token, which it uses up.
    pub fn admin_operation(self)
        requires
            self.level() == 3,
    {
    }
}

} // verus!
