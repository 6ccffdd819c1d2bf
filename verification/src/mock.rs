//! A mock tool adapter: always available, and producing a fixed
//! transcript without running anything, for exercising the framework
//! without a real tool.

use vstd::prelude::*;

use crate::scenario::Scenario;

verus! {

/// A tool's availability report.
#[derive(Debug, Clone, Copy, PartialEq, Eq, Structural)]
pub struct ToolStatus {
    /// The tool binary is present.
    pub available: bool,
    /// The tool is authenticated.
    pub authenticated: bool,
}

/// The adapter standing in for a real tool.
#[derive(Debug, Clone, Copy)]
pub struct MockAdapter;

impl MockAdapter {
    /// The mock tool is always available and authenticated.
    pub fn is_available(&self) -> (r: ToolStatus)
        ensures
            r.available,
            r.authenticated,
    {
        ToolStatus { available: true, authenticated: true }
    }

    /// Availability checks always succeed for the mock tool.
    pub fn check_availability(&self) -> (r: Result<(), String>)
        ensures
            r is Ok,
    {
        Ok(())
    }

    /// A fixed transcript, produced without executing any command.
    pub fn generate_transcript(&self, _scenario: &Scenario) -> (r: String)
        ensures
            r@ == "mock command output\nMock execution completed successfully"@,
    {
        String::from_str("mock command output\nMock execution completed successfully")
    }
}

} // verus!
