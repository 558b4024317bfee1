//! The engine handle: one rule compiler, and the rules once they are compiled.
//!
//! The native engine is reached through calls that only a driver outside this
//! library can make. `Yara` holds what has to be decided around those calls.
//! Each operation says which call comes next, as a `NativeCall`; the driver
//! makes the call and hands its outcome to the operation that reads it.
//!
//! The engine counts its initialisations, so every initialisation that
//! succeeded is owed one finalisation: after a compiler that could not be
//! created, at once; else at the end of the instance's teardown.
//!
//! An instance is in one of two states. While it accepts rule text it holds no
//! compiled rules. The first scan compiles them; from then on it scans and
//! refuses rule text, and it keeps the rules it has.

use std::collections::VecDeque;
use vstd::prelude::*;
use vstd::slice::*;
use vstd::string::*;

use crate::errors::{take_errors, taken, Error, ErrorView};
use crate::rule::Rule;
use crate::text::{has_nul, nul_free};

verus! {

/// Flags of every scan: none.
pub const SCAN_FLAGS: i32 = 0;

/// Timeout of every scan, in the engine's unit.
pub const SCAN_TIMEOUT: i32 = 10;

/// A call into the native engine that the driver is asked to make. Handles are
/// the addresses that the engine gave out.
#[derive(Debug)]
pub enum NativeCall {
    /// Initialise the engine for this process.
    Initialize,
    /// Create a rule compiler.
    CreateCompiler,
    /// Give a compiler the callback that queues its diagnostics.
    SetCallback { compiler: usize },
    /// Add rule text, a C string without its terminator, to the compiler,
    /// under the given namespace or under the default one.
    AddString { compiler: usize, rule: Vec<u8>, namespace: Option<Vec<u8>> },
    /// Compile what the compiler holds.
    GetRules { compiler: usize },
    /// Scan a buffer in memory.
    ScanMem { rules: usize, flags: i32, timeout: i32 },
    /// Scan an open file by its descriptor.
    ScanFd { rules: usize, flags: i32, timeout: i32 },
    /// Scan the memory of a running process.
    ScanProc { rules: usize, pid: i32, flags: i32, timeout: i32 },
    /// Release compiled rules.
    DestroyRules { rules: usize },
    /// Release a compiler.
    DestroyCompiler { compiler: usize },
    /// Undo one initialisation of the engine.
    Finalize,
}

/// Main entry point for all use of the engine.
#[derive(Debug)]
pub struct Yara {
    compiler: usize,
    rules: Option<usize>,
}

/// The namespace that is handed to the compiler for the one the caller named:
/// the name itself, or the empty name in place of one that holds a NUL.
pub open spec fn namespace_bytes(name: Seq<u8>) -> Seq<u8> {
    if nul_free(name) {
        name
    } else {
        Seq::empty()
    }
}

/// What is owed to the engine once it has answered the creation of the
/// compiler: the diagnostic callback for a compiler that exists, and for one
/// that does not, the finalisation that pairs the initialisation before it.
pub open spec fn creation_calls(status: i32, compiler: usize) -> Seq<NativeCall> {
    if status == 0 {
        seq![NativeCall::SetCallback { compiler }]
    } else {
        seq![NativeCall::Finalize]
    }
}

/// How many of `calls` undo an initialisation of the engine.
pub open spec fn finalizations(calls: Seq<NativeCall>) -> nat
    decreases calls.len(),
{
    if calls.len() == 0 {
        0
    } else {
        finalizations(calls.drop_last()) + if calls.last() is Finalize {
            1nat
        } else {
            0nat
        }
    }
}

impl Yara {
    /// The handle of the rule compiler.
    pub closed spec fn compiler(&self) -> usize {
        self.compiler
    }

    /// The handle of the compiled rules, once there are any.
    pub closed spec fn rules(&self) -> Option<usize> {
        self.rules
    }

    /// The rules have been compiled.
    pub open spec fn is_compiled(&self) -> bool {
        self.rules() is Some
    }

    /// What the outcome of compilation makes of an instance: one that has
    /// rules keeps them, one that has none gets `handle` where the status is
    /// success, and the compiler stays the same.
    pub open spec fn compiles_to(&self, status: i32, handle: usize, after: Yara) -> bool {
        &&& after.compiler() == self.compiler()
        &&& after.rules() == if self.rules() is Some {
            self.rules()
        } else if status == 0 {
            Some(handle)
        } else {
            None
        }
    }

    /// Why rule text is refused before it reaches the compiler, if it is:
    /// first because the rules have been compiled, whatever the text is;
    /// then because the text holds a NUL.
    pub open spec fn refusal(&self, rule: Seq<u8>) -> Option<ErrorView> {
        if self.is_compiled() {
            Some(ErrorView::AlreadyCompiled)
        } else if !nul_free(rule) {
            Some(ErrorView::InvalidRuleText)
        } else {
            None
        }
    }

    /// The calls that release an instance, in their order: the compiled rules
    /// where there are any, then the compiler, then the engine itself.
    pub open spec fn teardown(&self) -> Seq<NativeCall> {
        let last = seq![
            NativeCall::DestroyCompiler { compiler: self.compiler() },
            NativeCall::Finalize,
        ];
        match self.rules() {
            Some(rules) => seq![NativeCall::DestroyRules { rules }] + last,
            None => last,
        }
    }

    /// The scan that `scan_memory` asks for once the rules are compiled.
    pub open spec fn memory_scan(&self) -> NativeCall {
        NativeCall::ScanMem { rules: self.rules().unwrap(), flags: SCAN_FLAGS, timeout: SCAN_TIMEOUT }
    }

    /// The scan that `scan_file` asks for once the rules are compiled.
    pub open spec fn file_scan(&self) -> NativeCall {
        NativeCall::ScanFd { rules: self.rules().unwrap(), flags: SCAN_FLAGS, timeout: SCAN_TIMEOUT }
    }

    /// The scan that `scan_process` asks for once the rules are compiled.
    pub open spec fn process_scan(&self, pid: i32) -> NativeCall {
        NativeCall::ScanProc {
            rules: self.rules().unwrap(),
            pid,
            flags: SCAN_FLAGS,
            timeout: SCAN_TIMEOUT,
        }
    }

    /// Reads the status of the engine's initialisation, which the driver has
    /// run under the process-wide lock: on success the compiler is created
    /// next.
    pub fn initialized(status: i32) -> (r: Result<NativeCall, Error>)
        ensures
            status == 0 ==> r matches Ok(NativeCall::CreateCompiler),
            status != 0 ==> (r matches Err(e) && e@ == ErrorView::EngineInitError(status)),
    {
        if status == 0 {
            Ok(NativeCall::CreateCompiler)
        } else {
            Err(Error::EngineInitError(status))
        }
    }

    /// Reads the outcome of creating the compiler, and says which calls the
    /// driver makes next, still under the process-wide lock. On success there
    /// is an instance that owns the compiler and has no rules yet, and the
    /// compiler gets the diagnostic callback. On failure the initialisation
    /// that went before is finalised, and no callback is installed.
    pub fn new(status: i32, compiler: usize) -> (out: (Result<Yara, Error>, Vec<NativeCall>))
        ensures
            status == 0 ==> (out.0 matches Ok(yara) && yara.compiler() == compiler
                && !yara.is_compiled()),
            status != 0 ==> (out.0 matches Err(e) && e@ == ErrorView::CompilerCreateError(status)),
            out.1@ == creation_calls(status, compiler),
    {
        let mut calls: Vec<NativeCall> = Vec::new();
        if status == 0 {
            calls.push(NativeCall::SetCallback { compiler });
            assert(calls@ =~= creation_calls(status, compiler));
            (Ok(Yara { compiler, rules: None }), calls)
        } else {
            calls.push(NativeCall::Finalize);
            assert(calls@ =~= creation_calls(status, compiler));
            (Err(Error::CompilerCreateError(status)), calls)
        }
    }

    /// The calls that release this instance, in the order in which the driver
    /// has to make them, the last of them under the process-wide lock.
    pub fn drop(&self) -> (calls: Vec<NativeCall>)
        ensures
            calls@ == self.teardown(),
    {
        let mut calls: Vec<NativeCall> = Vec::new();
        if let Some(rules) = self.rules {
            calls.push(NativeCall::DestroyRules { rules });
        }
        calls.push(NativeCall::DestroyCompiler { compiler: self.compiler });
        calls.push(NativeCall::Finalize);
        assert(calls@ =~= self.teardown());
        calls
    }

    /// Reads the status of undoing the engine's initialisation.
    pub fn finalize(&self, status: i32) -> (r: Result<(), Error>)
        ensures
            status == 0 ==> r is Ok,
            status != 0 ==> (r matches Err(e) && e@ == ErrorView::UnknownEngineError(status)),
    {
        Error::from_code(status)
    }

    /// Add a rule to the engine.
    ///
    /// All rules must be added before the first scan. They are compiled at
    /// the first scan, and no rule can be added after that. Text that holds a
    /// NUL cannot be handed to the engine. Otherwise the text goes to the
    /// compiler as it is, with the namespace where one is given.
    pub fn add_rule_str(&self, rule: &str, namespace: Option<&str>) -> (r: Result<
        NativeCall,
        Error,
    >)
        ensures
            self.refusal(rule.spec_bytes()) matches Some(why) ==> (r matches Err(e) && e@ == why),
            self.refusal(rule.spec_bytes()) is None ==> {
                &&& r matches Ok(NativeCall::AddString { compiler, rule: text, namespace: space })
                &&& compiler == self.compiler()
                &&& text@ == rule.spec_bytes()
                &&& namespace is None ==> space is None
                &&& namespace matches Some(name) ==> (space matches Some(bytes) && bytes@
                    == namespace_bytes(name.spec_bytes()))
            },
    {
        match self.rules {
            Some(_) => Err(Error::AlreadyCompiled),
            None => {
                let text = rule.as_bytes();
                if has_nul(text) {
                    return Err(Error::InvalidRuleText);
                }
                let space: Option<Vec<u8>> = match namespace {
                    None => None,
                    Some(name) => {
                        let bytes = name.as_bytes();
                        if has_nul(bytes) {
                            Some(Vec::new())
                        } else {
                            Some(slice_to_vec(bytes))
                        }
                    },
                };
                Ok(
                    NativeCall::AddString {
                        compiler: self.compiler,
                        rule: slice_to_vec(text),
                        namespace: space,
                    },
                )
            },
        }
    }

    /// Reads the number of errors that the compiler reported for rule text.
    /// Where it reported any, the diagnostics that it queued meanwhile are
    /// taken off the queue and returned, oldest first: one for each reported
    /// error, or all that are queued where those are fewer.
    pub fn rule_added(&self, count: i32, queue: &mut VecDeque<String>) -> (r: Result<(), Error>)
        ensures
            count == 0 ==> r is Ok && final(queue)@ == old(queue)@,
            count != 0 ==> {
                &&& r matches Err(Error::Multiple(messages))
                &&& messages@ == old(queue)@.take(taken(count as int, old(queue)@.len()) as int)
                &&& final(queue)@ == old(queue)@.skip(
                    taken(count as int, old(queue)@.len()) as int,
                )
            },
            count > 0 && old(queue)@.len() > 0 ==> (r matches Err(Error::Multiple(messages))
                && messages@.len() > 0),
    {
        if count == 0 {
            Ok(())
        } else {
            Err(Error::Multiple(take_errors(queue, count)))
        }
    }

    /// The compilation that a scan needs first: none once the rules are
    /// compiled.
    pub fn compilation(&self) -> (call: Option<NativeCall>)
        ensures
            !self.is_compiled() ==> call == Some(NativeCall::GetRules { compiler: self.compiler() }),
            self.is_compiled() ==> call is None,
    {
        match self.rules {
            None => Some(NativeCall::GetRules { compiler: self.compiler }),
            Some(_) => None,
        }
    }

    /// Reads the outcome of compiling the rules. An instance that has rules
    /// keeps them whatever the outcome says.
    pub fn check_rules(&mut self, status: i32, rules: usize) -> (r: Result<(), Error>)
        ensures
            old(self).compiles_to(status, rules, *final(self)),
            old(self).is_compiled() || status == 0 ==> r is Ok,
            !old(self).is_compiled() && status != 0 ==> (r matches Err(e) && e@
                == ErrorView::UnknownEngineError(status)),
    {
        if self.rules.is_none() {
            match Error::from_code(status) {
                Ok(()) => {},
                Err(e) => {
                    return Err(e);
                },
            }
            self.rules = Some(rules);
        }
        Ok(())
    }

    /// Scan a buffer loaded into memory: the rules are compiled first where
    /// they are not yet.
    pub fn scan_memory(&self) -> (call: NativeCall)
        ensures
            !self.is_compiled() ==> call == (NativeCall::GetRules { compiler: self.compiler() }),
            self.is_compiled() ==> call == self.memory_scan(),
    {
        match self.rules {
            None => NativeCall::GetRules { compiler: self.compiler },
            Some(rules) => NativeCall::ScanMem { rules, flags: SCAN_FLAGS, timeout: SCAN_TIMEOUT },
        }
    }

    /// Scan a file: the rules are compiled first where they are not yet.
    /// `opened` says whether the file at `path` could be opened.
    pub fn scan_file(&self, path: &str, opened: bool) -> (r: Result<NativeCall, Error>)
        ensures
            !self.is_compiled() ==> (r matches Ok(call) && call == (NativeCall::GetRules {
                compiler: self.compiler(),
            })),
            self.is_compiled() && opened ==> (r matches Ok(call) && call == self.file_scan()),
            self.is_compiled() && !opened ==> (r matches Err(e) && e@ == ErrorView::InvalidFile(
                path@,
            )),
    {
        match self.rules {
            None => Ok(NativeCall::GetRules { compiler: self.compiler }),
            Some(rules) => {
                if opened {
                    Ok(self.rules_scan_raw(rules, SCAN_TIMEOUT))
                } else {
                    Err(Error::InvalidFile(path.to_owned()))
                }
            },
        }
    }

    /// Scan a running process: the rules are compiled first where they are
    /// not yet.
    pub fn scan_process(&self, pid: i32) -> (call: NativeCall)
        ensures
            !self.is_compiled() ==> call == (NativeCall::GetRules { compiler: self.compiler() }),
            self.is_compiled() ==> call == self.process_scan(pid),
    {
        match self.rules {
            None => NativeCall::GetRules { compiler: self.compiler },
            Some(rules) => NativeCall::ScanProc {
                rules,
                pid,
                flags: SCAN_FLAGS,
                timeout: SCAN_TIMEOUT,
            },
        }
    }

    /// The scan of an open file with the given rules and timeout.
    pub fn rules_scan_raw(&self, rules: usize, timeout: i32) -> (call: NativeCall)
        ensures
            call == (NativeCall::ScanFd { rules, flags: SCAN_FLAGS, timeout }),
    {
        NativeCall::ScanFd { rules, flags: SCAN_FLAGS, timeout }
    }

    /// The list that a scan starts from and hands to the callback: a new one
    /// for each scan, and empty.
    pub fn empty_results(&self) -> (results: Vec<Rule>)
        ensures
            results@ == Seq::<Rule>::empty(),
    {
        Vec::new()
    }

    /// Reads the status of a scan: on success the rules that the callback
    /// collected during it, as they are.
    pub fn scan_finished(&self, status: i32, results: Vec<Rule>) -> (r: Result<Vec<Rule>, Error>)
        ensures
            status == 0 ==> r == Ok::<Vec<Rule>, Error>(results),
            status != 0 ==> (r matches Err(e) && e@ == ErrorView::UnknownEngineError(status)),
    {
        match Error::from_code(status) {
            Ok(()) => Ok(results),
            Err(e) => Err(e),
        }
    }
}

/// Registration closes when the rules are compiled: after a compilation that
/// succeeded, rule text is refused as `AlreadyCompiled`, whatever it is.
pub proof fn lemma_registration_closes(before: Yara, handle: usize, after: Yara, rule: Seq<u8>)
    requires
        before.compiles_to(0, handle, after),
    ensures
        after.is_compiled(),
        after.refusal(rule) == Some(ErrorView::AlreadyCompiled),
{
}

/// Rules are compiled once: an instance that has rules keeps them and its
/// compiler through whatever a later compilation reports, and stays closed
/// to registration.
pub proof fn lemma_rules_are_kept(before: Yara, status: i32, handle: usize, after: Yara)
    requires
        before.is_compiled(),
        before.compiles_to(status, handle, after),
    ensures
        after.rules() == before.rules(),
        after.compiler() == before.compiler(),
        after.is_compiled(),
{
}

/// A compilation that fails leaves the instance as it was, open to
/// registration.
pub proof fn lemma_failed_compilation_changes_nothing(
    before: Yara,
    status: i32,
    handle: usize,
    after: Yara,
)
    requires
        !before.is_compiled(),
        status != 0,
        before.compiles_to(status, handle, after),
    ensures
        after.rules() == before.rules(),
        after.compiler() == before.compiler(),
        !after.is_compiled(),
{
}

/// Initialisation and finalisation are paired. Where the compiler could not
/// be created, exactly one finalisation is owed at once. Where it was, none
/// is owed then, and the teardown of the instance, whether or not it has
/// compiled rules, holds exactly one.
pub proof fn lemma_initialisation_is_paired(status: i32, compiler: usize, yara: Yara)
    ensures
        status != 0 ==> finalizations(creation_calls(status, compiler)) == 1,
        status == 0 ==> finalizations(creation_calls(status, compiler)) == 0,
        finalizations(yara.teardown()) == 1,
{
    let owed = creation_calls(status, compiler);
    assert(owed.drop_last() =~= Seq::<NativeCall>::empty());
    assert(finalizations(owed.drop_last()) == 0);
    let down = yara.teardown();
    let destroy = NativeCall::DestroyCompiler { compiler: yara.compiler() };
    assert(down.last() == NativeCall::Finalize);
    let inner = down.drop_last();
    assert(inner.last() == destroy);
    match yara.rules() {
        Some(rules) => {
            let first = inner.drop_last();
            assert(first =~= seq![NativeCall::DestroyRules { rules }]);
            assert(first.drop_last() =~= Seq::<NativeCall>::empty());
            assert(finalizations(first.drop_last()) == 0);
            assert(finalizations(first) == 0);
        },
        None => {
            assert(inner.drop_last() =~= Seq::<NativeCall>::empty());
            assert(finalizations(inner.drop_last()) == 0);
        },
    }
    assert(finalizations(inner) == 0);
}

/// Teardown releases from the inside out: the last call undoes the engine's
/// initialisation, the compiler goes directly before it, and compiled rules,
/// where there are any, go before the compiler.
pub proof fn lemma_teardown_order(yara: Yara)
    ensures
        yara.teardown().last() == NativeCall::Finalize,
        yara.teardown()[yara.teardown().len() - 2] == (NativeCall::DestroyCompiler {
            compiler: yara.compiler(),
        }),
        yara.rules() matches Some(rules) ==> yara.teardown().len() == 3 && yara.teardown()[0] == (
        NativeCall::DestroyRules { rules }),
        yara.rules() is None ==> yara.teardown().len() == 2,
{
}

} // verus!
