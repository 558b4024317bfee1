//! Whole scans, driven as a caller drives them, against a stand-in for the
//! native engine that knows a few rules by their text.

use std::collections::VecDeque;

use yara2::libyara::{
    YR_MATCH, YR_MATCHES, YR_META, YR_NAMESPACE, YR_RULE, YR_STRING, CALLBACK_MSG_RULE_MATCHING,
    META_TYPE_BOOLEAN, META_TYPE_INTEGER, META_TYPE_NULL, META_TYPE_STRING, STRING_GFLAGS_NULL,
};
use yara2::rule::can_project;
use yara2::{error_callback, scan_callback, Error, MetadataValue, NativeCall, Rule, Yara};

const IS_AWESOME: &str = r#"rule is_awesome : tag1 tag2 {
  meta:
    an_integer = 42
    a_bool = true
    a_string = "a string"

  strings:
    $rust = "rust" nocase

  condition:
    $rust
}"#;

const HAS_FLAG: &str = r#"rule has_flag {

  strings:
    $flag = "FLAG"

  condition:
    $flag
}"#;

const IS_PE: &str = r#"rule is_pe
{
meta:
      description = "checks if it is a pe process"
      author = "Russ"
      date = "2020-12-18"
strings:
    $pe = "MZ"
condition:
    $pe
}"#;

const IS_ELF: &str = r#"rule is_elf
{
meta:
    description = "checks if it is an elf process"
    author = "Russ"
    date = "2020-12-18"
strings:
    $elf = "ELF"
condition:
    $elf
}"#;

/// What the stand-in engine knows of one rule.
struct Known {
    identifier: &'static str,
    tags: &'static [u8],
    metas: Vec<YR_META>,
    string: &'static str,
    needle: &'static [u8],
    nocase: bool,
}

fn c(text: &str) -> Vec<u8> {
    let mut bytes = text.as_bytes().to_vec();
    bytes.push(0);
    bytes
}

fn meta(type_: i32, identifier: &str, integer: i64, string: &str) -> YR_META {
    YR_META { type_, integer, identifier: c(identifier), string: c(string) }
}

fn end_of_metas() -> YR_META {
    YR_META { type_: META_TYPE_NULL, integer: 0, identifier: Vec::new(), string: Vec::new() }
}

fn russ(description: &str) -> Vec<YR_META> {
    vec![
        meta(META_TYPE_STRING, "description", 0, description),
        meta(META_TYPE_STRING, "author", 0, "Russ"),
        meta(META_TYPE_STRING, "date", 0, "2020-12-18"),
        end_of_metas(),
    ]
}

fn known(text: &[u8]) -> Option<Known> {
    if text == IS_AWESOME.as_bytes() {
        Some(Known {
            identifier: "is_awesome",
            tags: b"tag1\0tag2\0\0",
            metas: vec![
                meta(META_TYPE_INTEGER, "an_integer", 42, ""),
                meta(META_TYPE_BOOLEAN, "a_bool", 1, ""),
                meta(META_TYPE_STRING, "a_string", 0, "a string"),
                end_of_metas(),
            ],
            string: "$rust",
            needle: b"rust",
            nocase: true,
        })
    } else if text == HAS_FLAG.as_bytes() {
        Some(Known {
            identifier: "has_flag",
            tags: b"\0",
            metas: vec![end_of_metas()],
            string: "$flag",
            needle: b"FLAG",
            nocase: false,
        })
    } else if text == IS_PE.as_bytes() {
        Some(Known {
            identifier: "is_pe",
            tags: b"\0",
            metas: russ("checks if it is a pe process"),
            string: "$pe",
            needle: b"MZ",
            nocase: false,
        })
    } else if text == IS_ELF.as_bytes() {
        Some(Known {
            identifier: "is_elf",
            tags: b"\0",
            metas: russ("checks if it is an elf process"),
            string: "$elf",
            needle: b"ELF",
            nocase: false,
        })
    } else {
        None
    }
}

fn occurrences(data: &[u8], needle: &[u8], nocase: bool) -> Vec<YR_MATCH> {
    let mut found = Vec::new();
    if needle.is_empty() || data.len() < needle.len() {
        return found;
    }
    for at in 0..=data.len() - needle.len() {
        let window = &data[at..at + needle.len()];
        let same = if nocase { window.eq_ignore_ascii_case(needle) } else { window == needle };
        if same {
            found.push(YR_MATCH {
                offset: at as i64,
                match_length: needle.len() as i32,
                data: window.to_vec(),
            });
        }
    }
    found
}

/// The stand-in engine and a caller's handle on it.
struct Session {
    core: Yara,
    namespace: Vec<u8>,
    registered: Vec<Known>,
    queue: VecDeque<String>,
    calls: Vec<String>,
    tidx: i32,
}

const COMPILER: usize = 0x1000;
const RULES: usize = 0x2000;

impl Session {
    fn new() -> Result<Session, Error> {
        let create = Yara::initialized(0)?;
        assert!(matches!(create, NativeCall::CreateCompiler));
        let (core, owed) = Yara::new(0, COMPILER);
        let mut calls = vec!["initialize".to_string(), "create".to_string()];
        for call in owed {
            match call {
                NativeCall::SetCallback { compiler } => {
                    assert_eq!(compiler, COMPILER);
                    calls.push("callback".to_string());
                }
                other => panic!("creation asked for {:?}", other),
            }
        }
        Ok(Session {
            core: core?,
            namespace: c("default"),
            registered: Vec::new(),
            queue: VecDeque::new(),
            calls,
            tidx: 2,
        })
    }

    fn add_rule_str(&mut self, rule: &str, namespace: Option<&str>) -> Result<(), Error> {
        let call = self.core.add_rule_str(rule, namespace)?;
        let count = match call {
            NativeCall::AddString { compiler, rule, namespace } => {
                assert_eq!(compiler, COMPILER);
                self.calls.push("add".to_string());
                match known(&rule) {
                    Some(k) => {
                        if let Some(name) = namespace {
                            self.namespace = name;
                            self.namespace.push(0);
                        }
                        self.registered.push(k);
                        0
                    }
                    None => {
                        error_callback(0, b"", 1, b"syntax error\0", &mut self.queue);
                        1
                    }
                }
            }
            other => panic!("registration asked for {:?}", other),
        };
        self.core.rule_added(count, &mut self.queue)
    }

    fn report(&self, data: &[u8], results: &mut Vec<Rule>) -> i32 {
        for k in &self.registered {
            let found = occurrences(data, k.needle, k.nocase);
            // A message of another kind, with nothing to read as a rule.
            assert_eq!(scan_callback(2, None, self.tidx, results), 0);
            if found.is_empty() {
                continue;
            }
            let mut lists: Vec<YR_MATCHES> = Vec::new();
            for slot in 0..4 {
                let nodes = if slot == self.tidx { found.clone() } else { Vec::new() };
                lists.push(YR_MATCHES { nodes });
            }
            let record = YR_RULE {
                identifier: c(k.identifier),
                tags: k.tags.to_vec(),
                metas: k.metas.clone(),
                strings: vec![
                    YR_STRING {
                        g_flags: 0,
                        identifier: c(k.string),
                        string: k.needle.to_vec(),
                        matches: lists,
                    },
                    YR_STRING {
                        g_flags: STRING_GFLAGS_NULL,
                        identifier: Vec::new(),
                        string: Vec::new(),
                        matches: Vec::new(),
                    },
                ],
                ns: YR_NAMESPACE { name: self.namespace.clone() },
            };
            assert!(can_project(&record, self.tidx));
            let status =
                scan_callback(CALLBACK_MSG_RULE_MATCHING, Some(&record), self.tidx, results);
            assert_eq!(status, 0);
        }
        0
    }

    fn run(&mut self, mut call: NativeCall, data: &[u8]) -> Result<Vec<Rule>, Error> {
        if let NativeCall::GetRules { compiler } = call {
            assert_eq!(compiler, COMPILER);
            self.calls.push("compile".to_string());
            self.core.check_rules(0, RULES)?;
            call = self.core.scan_memory();
        }
        match call {
            NativeCall::ScanMem { rules, flags, timeout } => {
                assert_eq!((rules, flags, timeout), (RULES, 0, 10));
                self.calls.push("scan".to_string());
                let mut results = self.core.empty_results();
                let status = self.report(data, &mut results);
                self.core.scan_finished(status, results)
            }
            other => panic!("scan asked for {:?}", other),
        }
    }

    fn scan_memory(&mut self, data: &[u8]) -> Result<Vec<Rule>, Error> {
        let call = self.core.scan_memory();
        self.run(call, data)
    }

    fn scan_file(&mut self, path: &str, content: Option<&[u8]>) -> Result<Vec<Rule>, Error> {
        if let Some(NativeCall::GetRules { compiler }) = self.core.compilation() {
            assert_eq!(compiler, COMPILER);
            self.calls.push("compile".to_string());
            self.core.check_rules(0, RULES)?;
        }
        let call = self.core.scan_file(path, content.is_some())?;
        match call {
            NativeCall::ScanFd { rules, flags, timeout } => {
                assert_eq!((rules, flags, timeout), (RULES, 0, 10));
                self.calls.push("scan".to_string());
                let mut results = self.core.empty_results();
                let status = self.report(content.unwrap(), &mut results);
                self.core.scan_finished(status, results)
            }
            other => panic!("scan asked for {:?}", other),
        }
    }
}

#[test]
fn yara_mem() {
    println!("Yara basic usage example");
    let rule = r#"rule is_awesome : tag1 tag2 {
  meta:
    an_integer = 42
    a_bool = true
    a_string = "a string"

  strings:
    $rust = "rust" nocase

  condition:
    $rust
}"#;
    let mut yara = Session::new().expect("Couldn't init yara");
    yara.add_rule_str(rule, None).expect("Couldn't add rule");
    let none = yara.scan_memory(b"this is a string").expect("error scanning memory!");
    let some = yara.scan_memory(b"this is a rust string").expect("error scanning memory!");

    println!("no results:   {:?}", none);
    println!("some results: {:?}", some);
    assert!(none.len() == 0);
    assert!(some.len() != 0);
}

#[test]
fn test_yara_file() {
    let rule = r#"rule has_flag {

  strings:
    $flag = "FLAG"

  condition:
    $flag
}"#;
    let mut yara = Session::new().expect("Could not initiate yara!");
    yara.add_rule_str(rule, None).expect("Could not load rule!");
    let none = yara.scan_file("./tests/data1.txt", None);
    let some = yara.scan_file("./tests/data2.txt", Some(&b"the FLAG is here"[..]));

    println!("no results:   {:?}", none);
    println!("some results: {:?}", some);
    assert!(true);
    assert!(matches!(none, Err(Error::InvalidFile(ref path)) if path == "./tests/data1.txt"));
    let some = some.expect("error scanning file!");
    assert_eq!(some.len(), 1);
    assert_eq!(some[0].identifier, "has_flag");
    assert_eq!(some[0].strings[0].matches[0].offset, 4);
}

#[test]
fn scan_reports_one_match_of_rust() {
    let mut yara = Session::new().unwrap();
    yara.add_rule_str(IS_AWESOME, None).unwrap();
    let none = yara.scan_memory(b"this is a string").unwrap();
    assert!(none.is_empty());
    let input = b"this is a rust string";
    let some = yara.scan_memory(input).unwrap();
    assert_eq!(some.len(), 1);
    let rule = &some[0];
    assert_eq!(rule.identifier, "is_awesome");
    assert_eq!(rule.namespace, "default");
    assert_eq!(rule.strings.len(), 1);
    assert_eq!(rule.strings[0].identifier, "$rust");
    assert_eq!(rule.strings[0].matches.len(), 1);
    let m = &rule.strings[0].matches[0];
    assert_eq!(m.offset, 10);
    assert_eq!(m.length, 4);
    assert_eq!(m.data, b"rust".to_vec());
    assert_eq!(&input[m.offset..m.offset + m.length], &m.data[..]);
}

#[test]
fn scan_matches_without_regard_to_case_where_the_rule_says_so() {
    let mut yara = Session::new().unwrap();
    yara.add_rule_str(IS_AWESOME, None).unwrap();
    let input = b"RuSt and rust";
    let some = yara.scan_memory(input).unwrap();
    assert_eq!(some.len(), 1);
    let found = &some[0].strings[0].matches;
    assert_eq!(found.len(), 2);
    assert_eq!((found[0].offset, found[0].length), (0, 4));
    assert_eq!(found[0].data, b"RuSt".to_vec());
    assert_eq!((found[1].offset, found[1].length), (9, 4));
    for m in found {
        assert_eq!(&input[m.offset..m.offset + m.length], &m.data[..]);
    }
}

#[test]
fn scan_exposes_tags_and_typed_metadata() {
    let mut yara = Session::new().unwrap();
    yara.add_rule_str(IS_AWESOME, None).unwrap();
    let some = yara.scan_memory(b"this is a rust string").unwrap();
    let rule = &some[0];
    assert_eq!(rule.tags, vec!["tag1".to_string(), "tag2".to_string()]);
    assert_eq!(rule.metadata.len(), 3);
    assert_eq!(rule.metadata[0].identifier, "an_integer");
    assert_eq!(rule.metadata[0].value, MetadataValue::Integer(42));
    assert_eq!(rule.metadata[1].identifier, "a_bool");
    assert_eq!(rule.metadata[1].value, MetadataValue::Boolean(true));
    assert_eq!(rule.metadata[2].identifier, "a_string");
    assert_eq!(rule.metadata[2].value, MetadataValue::String("a string".to_string()));
}

#[test]
fn scan_of_two_rules_reports_only_the_one_that_matches() {
    let mut yara = Session::new().unwrap();
    yara.add_rule_str(IS_PE.trim(), None).unwrap();
    yara.add_rule_str(IS_ELF.trim(), None).unwrap();
    let results = yara.scan_memory(b"MZ\x90\x00\x03").unwrap();
    assert_eq!(results.len(), 1);
    assert_eq!(results[0].identifier, "is_pe");
    let both = yara.scan_memory(b"\x7fELF and MZ").unwrap();
    assert_eq!(both.len(), 2);
    assert_eq!(both[0].identifier, "is_pe");
    assert_eq!(both[1].identifier, "is_elf");
}

#[test]
fn registration_after_a_scan_is_refused() {
    let mut yara = Session::new().unwrap();
    yara.add_rule_str(IS_AWESOME, None).unwrap();
    yara.scan_memory(b"nothing").unwrap();
    assert!(matches!(yara.add_rule_str(HAS_FLAG, None), Err(Error::AlreadyCompiled)));
    assert!(matches!(yara.add_rule_str("not a rule", None), Err(Error::AlreadyCompiled)));
    assert!(matches!(yara.add_rule_str("nul\0inside", None), Err(Error::AlreadyCompiled)));
}

#[test]
fn scan_of_a_missing_file_still_compiles_the_rules() {
    let mut yara = Session::new().unwrap();
    yara.add_rule_str(HAS_FLAG, None).unwrap();
    let missing = yara.scan_file("/no/such/file", None);
    assert!(matches!(missing, Err(Error::InvalidFile(ref path)) if path == "/no/such/file"));
    assert!(matches!(yara.add_rule_str(IS_PE, None), Err(Error::AlreadyCompiled)));
    assert_eq!(yara.calls, vec!["initialize", "create", "callback", "add", "compile"]);
}

#[test]
fn rules_are_compiled_once() {
    let mut yara = Session::new().unwrap();
    yara.add_rule_str(HAS_FLAG, None).unwrap();
    yara.scan_memory(b"a").unwrap();
    yara.scan_memory(b"FLAG").unwrap();
    yara.scan_file("x", Some(&b"FLAG"[..])).unwrap();
    assert_eq!(
        yara.calls,
        vec!["initialize", "create", "callback", "add", "compile", "scan", "scan", "scan"]
    );
}

#[test]
fn invalid_rule_text_carries_a_diagnostic() {
    let mut yara = Session::new().unwrap();
    match yara.add_rule_str("rule broken {", None) {
        Err(Error::Multiple(messages)) => {
            assert_eq!(messages, vec!["Line 1: syntax error".to_string()]);
        }
        other => panic!("unexpected: {:?}", other),
    }
    assert!(yara.queue.is_empty());
}

#[test]
fn namespace_is_reported_with_the_rule() {
    let mut yara = Session::new().unwrap();
    yara.add_rule_str(HAS_FLAG, Some("mine")).unwrap();
    let some = yara.scan_memory(b"FLAG").unwrap();
    assert_eq!(some[0].namespace, "mine");
}

#[test]
fn diagnostics_of_other_rejections_stay_queued() {
    let mut yara = Session::new().unwrap();
    error_callback(0, b"", 9, b"left by another instance\0", &mut yara.queue);
    match yara.add_rule_str("rule broken {", None) {
        Err(Error::Multiple(messages)) => {
            assert_eq!(messages, vec!["Line 9: left by another instance".to_string()]);
        }
        other => panic!("unexpected: {:?}", other),
    }
    assert_eq!(yara.queue.len(), 1);
    assert_eq!(yara.queue[0], "Line 1: syntax error");
}
