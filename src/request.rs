use vstd::prelude::*;

verus! {

/// Errors reported by the subagent API.
#[derive(Debug, Clone, Copy, PartialEq, Eq, Structural)]
pub enum SubAgentError {
    /// The spawn request is malformed; retrying the same request cannot help.
    InvalidRequest,
    /// The supervisor already runs as many subagents as it admits.
    CapacityExceeded,
    /// No subagent with this id is known (never spawned, or already reclaimed).
    UnknownSubAgent,
    /// The notification stream already delivered its final notification.
    ChannelClosed,
    /// The notification buffer is full; the consumer must drain it first.
    ChannelFull,
}

/// Parameters for spawning a subagent.
#[derive(Debug, Clone)]
pub struct SpawnSubAgentArgs {
    /// Name of a pre-registered agent template.
    pub recipe_name: Option<String>,
    /// Inline instruction text for the agent.
    pub instructions: Option<String>,
    /// The initial user turn; must be non-empty.
    pub message: String,
    /// Upper bound on the number of turns; must be positive when present.
    pub max_turns: Option<usize>,
    /// Wall-clock budget in seconds; must be positive when present.
    pub timeout_seconds: Option<u64>,
}

impl SpawnSubAgentArgs {
    /// A request passes validation: never both a recipe and instructions,
    /// a non-empty message, and positive bounds where bounds are given.
    pub open spec fn is_valid(&self) -> bool {
        &&& !(self.recipe_name.is_some() && self.instructions.is_some())
        &&& self.message@.len() > 0
        &&& (self.max_turns matches Some(n) ==> n > 0)
        &&& (self.timeout_seconds matches Some(t) ==> t > 0)
    }

    /// A request for the named recipe, with no turn bound and no timeout.
    pub fn new_with_recipe(recipe_name: String, message: String) -> (r: Self)
        ensures
            r.recipe_name == Some(recipe_name),
            r.instructions.is_none(),
            r.message == message,
            r.max_turns.is_none(),
            r.timeout_seconds.is_none(),
    {
        SpawnSubAgentArgs {
            recipe_name: Some(recipe_name),
            instructions: None,
            message,
            max_turns: None,
            timeout_seconds: None,
        }
    }

    /// A request with inline instructions, with no turn bound and no timeout.
    pub fn new_with_instructions(instructions: String, message: String) -> (r: Self)
        ensures
            r.recipe_name.is_none(),
            r.instructions == Some(instructions),
            r.message == message,
            r.max_turns.is_none(),
            r.timeout_seconds.is_none(),
    {
        SpawnSubAgentArgs {
            recipe_name: None,
            instructions: Some(instructions),
            message,
            max_turns: None,
            timeout_seconds: None,
        }
    }

    /// The same request with the turn bound set to `max_turns`.
    pub fn with_max_turns(self, max_turns: usize) -> (r: Self)
        ensures
            r.recipe_name == self.recipe_name,
            r.instructions == self.instructions,
            r.message == self.message,
            r.max_turns == Some(max_turns),
            r.timeout_seconds == self.timeout_seconds,
    {
        let mut r = self;
        r.max_turns = Some(max_turns);
        r
    }

    /// The same request with the timeout set to `timeout_seconds`.
    pub fn with_timeout(self, timeout_seconds: u64) -> (r: Self)
        ensures
            r.recipe_name == self.recipe_name,
            r.instructions == self.instructions,
            r.message == self.message,
            r.max_turns == self.max_turns,
            r.timeout_seconds == Some(timeout_seconds),
    {
        let mut r = self;
        r.timeout_seconds = Some(timeout_seconds);
        r
    }

    /// Checks the request; fails with `InvalidRequest` exactly when it is
    /// not valid. Has no side effects.
    pub fn validate(&self) -> (r: Result<(), SubAgentError>)
        ensures
            r is Ok <==> self.is_valid(),
            r is Err ==> r == Err::<(), SubAgentError>(SubAgentError::InvalidRequest),
            self.recipe_name.is_some() && self.instructions.is_some()
                ==> r == Err::<(), SubAgentError>(SubAgentError::InvalidRequest),
            self.message@.len() == 0 ==> r == Err::<(), SubAgentError>(SubAgentError::InvalidRequest),
    {
        if self.recipe_name.is_some() && self.instructions.is_some() {
            return Err(SubAgentError::InvalidRequest);
        }
        if self.message.as_str().is_empty() {
            return Err(SubAgentError::InvalidRequest);
        }
        if let Some(n) = self.max_turns {
            if n == 0 {
                return Err(SubAgentError::InvalidRequest);
            }
        }
        if let Some(t) = self.timeout_seconds {
            if t == 0 {
                return Err(SubAgentError::InvalidRequest);
            }
        }
        Ok(())
    }
}

/// Where the agent configuration of a request comes from.
#[derive(Debug, Clone, PartialEq, Eq)]
pub enum AgentSource {
    /// A named, pre-registered template.
    Recipe(String),
    /// Inline instruction text.
    Instructions(String),
    /// Neither was given: the default agent.
    Default,
}

impl SpawnSubAgentArgs {
    /// The agent configuration source of a valid request, as a single tagged value.
    pub fn agent_source(&self) -> (r: AgentSource)
        requires
            self.is_valid(),
        ensures
            self.recipe_name matches Some(n) ==> r == AgentSource::Recipe(n),
            self.instructions matches Some(i) ==> r == AgentSource::Instructions(i),
            self.recipe_name.is_none() && self.instructions.is_none() ==> r == AgentSource::Default,
    {
        match &self.recipe_name {
            Some(n) => AgentSource::Recipe(n.clone()),
            None => match &self.instructions {
                Some(i) => AgentSource::Instructions(i.clone()),
                None => AgentSource::Default,
            },
        }
    }
}

} // verus!
