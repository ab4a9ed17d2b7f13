use std::collections::HashMap;

use visu_modi_ram::error::Error;
use visu_modi_ram::gdb_parser::{
    capture_all, capture_first, extract_size, extract_variable_names, extract_variable_type,
    listing_of, make_address_command, make_children, make_describe_command, make_size_command,
    parse_address, reply_shape, send_cmd_raw, Finding, GdbParser, Query, ReplyReader,
    ReplyShape, ScanAction, VariableList, LIST_COMMAND,
};
use visu_modi_ram::progress::ScanProgress;
use visu_modi_ram::variable::VariableInfo;

fn reply(lines: &[&str]) -> Vec<String> {
    lines.iter().map(|line| format!("{}\n", line)).collect()
}

fn names(list: &[&str]) -> Vec<String> {
    list.iter().map(|name| name.to_string()).collect()
}

fn struct_reply() -> Vec<String> {
    reply(&[
        r#"&"ptype adc\n""#,
        r#"~"type = struct adc_t {\n""#,
        r#"~"    short unsigned int offset;\n""#,
        r#"~"    float gain;\n""#,
        r#"~"    int channel[4];\n""#,
        r#"~"}\n""#,
        "^done",
    ])
}

fn scalar_reply(symbol: &str, types: &str) -> Vec<String> {
    vec![
        format!("&\"ptype {}\\n\"\n", symbol),
        format!("~\"type = {}\\n\"\n", types),
        "^done\n".to_string(),
    ]
}

#[test]
fn names_are_taken_from_declarations() {
    let lines = reply(&[
        r#"&"info variables\n""#,
        r#"~"All defined variables:\n""#,
        r#"~"\n""#,
        r#"~"File main.c:\n""#,
        r#"~"12:\tuint16_t counter;\n""#,
        r#"~"13:\tstruct adc_t adc;\n""#,
        r#"~"14:\tint values[4];\n""#,
        r#"~"15:\tchar label[];\n""#,
        r#"~"\nNon-debugging symbols:\n""#,
        r#"~"0x20000000  _sdata\n""#,
        "^done",
    ]);
    assert_eq!(
        GdbParser::get_variable_list(&lines),
        names(&["counter", "adc", "values", "label"])
    );
    assert_eq!(GdbParser::get_variable_list(&Vec::new()), Vec::<String>::new());
}

#[test]
fn one_name_per_line() {
    let lines = reply(&[r#"~"int a; int b;\n""#]);
    assert_eq!(extract_variable_names(&lines), names(&["a"]));
}

#[test]
fn type_is_taken_from_first_matching_line() {
    let lines = scalar_reply("counter", "short unsigned int");
    assert_eq!(extract_variable_type(&lines), Some("short unsigned int".to_string()));
    assert_eq!(extract_variable_type(&reply(&["^done"])), None);
    let two = reply(&[r#"~"type = int\n""#, r#"~"type = char\n""#]);
    assert_eq!(extract_variable_type(&two), Some("int".to_string()));
}

#[test]
fn address_is_parsed_from_print_reply() {
    let lines = reply(&[r#"&"print /x &(adc.offset)\n""#, r#"~"$1 = 0x20000010\n""#, "^done"]);
    assert!(matches!(GdbParser::get_variable_address(&lines), Ok(Some(0x2000_0010))));
    let upper = reply(&[r#"~"$27 = 0xDEADbeef\n""#]);
    assert!(matches!(GdbParser::get_variable_address(&upper), Ok(Some(0xdead_beef))));
}

#[test]
fn address_absent_when_no_line_matches() {
    let lines = reply(&[
        r#"&"print /x &(x)\n""#,
        r#"^error,msg="Can't take address of \"x\" which isn't an lvalue.""#,
    ]);
    assert!(matches!(GdbParser::get_variable_address(&lines), Ok(None)));
    assert!(matches!(GdbParser::get_variable_address(&Vec::new()), Ok(None)));
    let decimal = reply(&[r#"~"$1 = 536870928\n""#]);
    assert!(matches!(GdbParser::get_variable_address(&decimal), Ok(None)));
}

#[test]
fn address_too_wide_is_a_parse_error() {
    let lines = reply(&[r#"~"$1 = 0x10000000000000000\n""#]);
    assert!(matches!(GdbParser::get_variable_address(&lines), Err(Error::ParseError)));
    let widest = reply(&[r#"~"$1 = 0xffffffffffffffff\n""#]);
    assert!(matches!(GdbParser::get_variable_address(&widest), Ok(Some(u64::MAX))));
}

#[test]
fn parse_address_reads_both_notations() {
    assert_eq!(parse_address("0x20000010"), Some(0x2000_0010));
    assert_eq!(parse_address("0x0"), Some(0));
    assert_eq!(parse_address("0xAbC"), Some(0xabc));
    assert_eq!(parse_address("536870928"), Some(536870928));
    assert_eq!(parse_address("+7"), Some(7));
    assert_eq!(parse_address("0x+1f"), Some(0x1f));
    assert_eq!(parse_address("0x-1"), None);
    assert_eq!(parse_address("0x"), None);
    assert_eq!(parse_address("0xg"), None);
    assert_eq!(parse_address("-1"), None);
    assert_eq!(parse_address(""), None);
    assert_eq!(parse_address("18446744073709551616"), None);
}

#[test]
fn size_is_taken_from_second_line() {
    let lines = reply(&[r#"&"p sizeof adc.offset\n""#, r#"~"$2 = 2\n""#, "^done"]);
    assert!(matches!(extract_size(&lines), Ok(2)));
    let spaced = reply(&["x", r#"~"$3 =   128  \n""#]);
    assert!(matches!(extract_size(&spaced), Ok(128)));
    let twice = reply(&["x", r#"~"$3 = 1 = 16\n""#]);
    assert!(matches!(extract_size(&twice), Ok(16)));
}

#[test]
fn size_missing_is_a_parse_error() {
    assert!(matches!(extract_size(&Vec::new()), Err(Error::ParseError)));
    assert!(matches!(extract_size(&reply(&["only one line"])), Err(Error::ParseError)));
    let words = reply(&["x", r#"^error,msg="No symbol \"y\" in current context.""#]);
    assert!(matches!(extract_size(&words), Err(Error::ParseError)));
    let negative = reply(&["x", r#"~"$2 = -2\n""#]);
    assert!(matches!(extract_size(&negative), Err(Error::ParseError)));
}

#[test]
fn three_lines_mean_expanded() {
    assert!(!GdbParser::check_expanded(&Ok(scalar_reply("counter", "int"))));
    assert!(GdbParser::check_expanded(&Ok(struct_reply())));
    assert!(GdbParser::check_expanded(&Ok(Vec::new())));
    assert!(GdbParser::check_expanded(&Ok(reply(&["a", "b"]))));
    assert!(GdbParser::check_expanded(&Ok(reply(&["a", "b", "c", "d"]))));
    assert!(GdbParser::check_expanded(&Err(Error::ParseError)));
    let broken = std::io::Error::new(std::io::ErrorKind::BrokenPipe, "gone");
    assert!(GdbParser::check_expanded(&Err(Error::IOError(broken))));
}

#[test]
fn types_list_members_or_the_type() {
    assert_eq!(GdbParser::get_variable_types(&struct_reply()).unwrap(), names(&["offset", "gain", "channel"]));
    assert_eq!(
        GdbParser::get_variable_types(&scalar_reply("counter", "short unsigned int")).unwrap(),
        names(&["short unsigned int"])
    );
    assert_eq!(GdbParser::get_variable_types(&Vec::new()).unwrap(), Vec::<String>::new());
    assert_eq!(GdbParser::get_variable_types(&reply(&["a", "b", "c"])).unwrap(), Vec::<String>::new());
}

#[test]
fn pointers_enums_and_constants_list_nothing() {
    assert_eq!(GdbParser::get_variable_types(&scalar_reply("p", "char *")).unwrap(), Vec::<String>::new());
    assert_eq!(
        GdbParser::get_variable_types(&scalar_reply("e", "enum color {RED, GREEN}")).unwrap(),
        Vec::<String>::new()
    );
    assert_eq!(
        GdbParser::get_variable_types(&scalar_reply("k", "const int")).unwrap(),
        Vec::<String>::new()
    );
    let pointer_member = reply(&[
        r#"&"ptype node\n""#,
        r#"~"type = struct node {\n""#,
        r#"~"    int value;\n""#,
        r#"~"} *\n""#,
        "^done",
    ]);
    assert_eq!(GdbParser::get_variable_types(&pointer_member).unwrap(), Vec::<String>::new());
}

#[test]
fn single_line_reply_is_a_parse_error() {
    assert!(matches!(GdbParser::get_variable_types(&reply(&["^done"])), Err(Error::ParseError)));
}

#[test]
fn expansion_prefixes_members() {
    assert_eq!(
        GdbParser::expand_symbol("adc", &struct_reply()),
        names(&["adc.offset", "adc.gain", "adc.channel"])
    );
}

#[test]
fn expansion_keeps_expanded_symbol() {
    assert_eq!(GdbParser::expand_symbol("counter", &scalar_reply("counter", "int")), names(&["counter"]));
}

#[test]
fn expansion_skips_names_already_on_the_path() {
    let lines = reply(&[
        r#"&"ptype list.next\n""#,
        r#"~"type = struct list {\n""#,
        r#"~"    int value;\n""#,
        r#"~"    struct list next;\n""#,
        r#"~"    struct list list;\n""#,
        r#"~"}\n""#,
        "^done",
    ]);
    assert_eq!(GdbParser::expand_symbol("list.next", &lines), names(&["list.next.value"]));
    assert_eq!(
        GdbParser::expand_symbol("lists.nexts", &lines),
        names(&["lists.nexts.value", "lists.nexts.next", "lists.nexts.list"])
    );
}

#[test]
fn expansion_of_unreadable_reply_is_empty() {
    assert_eq!(GdbParser::expand_symbol("x", &reply(&["^done"])), Vec::<String>::new());
    assert_eq!(GdbParser::expand_symbol("x", &Vec::new()), Vec::<String>::new());
    assert_eq!(
        GdbParser::expand_symbol("p", &reply(&["a", r#"~"type = struct s {\n""#, r#"~"} *\n""#, "^done"])),
        Vec::<String>::new()
    );
}

#[test]
fn commands_are_spelled_out() {
    assert_eq!(LIST_COMMAND, "info variables");
    assert_eq!(make_describe_command("adc.offset"), "ptype adc.offset");
    assert_eq!(make_size_command("adc.offset"), "p sizeof adc.offset");
    assert_eq!(make_address_command("adc.offset"), "print /x &(adc.offset)");
    assert_eq!(
        GdbParser::set_options(),
        names(&["set print type methods off", "set print type typedefs off"])
    );
}

#[test]
fn command_line_ends_with_one_line_feed() {
    assert_eq!(send_cmd_raw("info variables"), "info variables\n");
    assert_eq!(send_cmd_raw("info variables\n"), "info variables\n");
    assert_eq!(send_cmd_raw(""), "\n");
}

#[test]
fn reader_stops_at_prompt() {
    let mut reader = ReplyReader::new();
    assert!(!reader.read_sequence("~\"type = int\\n\"\n".to_string()));
    assert!(!reader.read_sequence("^done\n".to_string()));
    assert!(!reader.read_sequence("(gdb)\n".to_string()));
    assert!(reader.read_sequence("(gdb) \n".to_string()));
    assert_eq!(reader.into_reply(), names(&["~\"type = int\\n\"\n", "^done\n", "(gdb)\n"]));
    let mut windows = ReplyReader::new();
    assert!(windows.read_sequence("(gdb) \r\n".to_string()));
    assert_eq!(windows.into_reply(), Vec::<String>::new());
}

#[test]
fn reader_stops_at_end_of_output() {
    let mut reader = ReplyReader::new();
    assert!(!reader.read_sequence("^exit\n".to_string()));
    assert!(reader.read_sequence(String::new()));
    assert_eq!(reader.into_reply(), names(&["^exit\n", ""]));
}

#[test]
fn error_messages() {
    assert_eq!(Error::ParseError.message(), "cannot parse response from gdb");
    assert_eq!(Error::IgnoredOutput.message(), "ignored output");
    let broken = std::io::Error::new(std::io::ErrorKind::BrokenPipe, "pipe is gone");
    assert_eq!(Error::IOError(broken).message(), "pipe is gone");
}

struct Debugger {
    replies: HashMap<String, Vec<String>>,
    asked: Vec<String>,
}

impl Debugger {
    fn new() -> Debugger {
        Debugger { replies: HashMap::new(), asked: Vec::new() }
    }

    fn on(&mut self, command: &str, lines: Vec<String>) {
        self.replies.insert(command.to_string(), lines);
    }

    fn scalar(&mut self, symbol: &str, types: &str, size: usize, address: u64) {
        self.on(&format!("ptype {}", symbol), scalar_reply(symbol, types));
        self.on(
            &format!("p sizeof {}", symbol),
            vec![
                format!("&\"p sizeof {}\\n\"\n", symbol),
                format!("~\"$1 = {}\\n\"\n", size),
                "^done\n".to_string(),
            ],
        );
        self.on(
            &format!("print /x &({})", symbol),
            vec![
                format!("&\"print /x &({})\\n\"\n", symbol),
                format!("~\"$2 = {:#x}\\n\"\n", address),
                "^done\n".to_string(),
            ],
        );
    }

    fn ask(&mut self, command: &str) -> Vec<String> {
        self.asked.push(command.to_string());
        match self.replies.get(command) {
            Some(lines) => lines.clone(),
            None => vec![
                format!("&\"{}\\n\"\n", command),
                "^error,msg=\"No symbol in current context.\"\n".to_string(),
            ],
        }
    }

    fn run(&mut self, scan: &mut GdbParser) -> Vec<ScanProgress> {
        let mut seen = vec![scan.get_scan_progress()];
        let mut action = scan.scan_variables_none_blocking_start();
        seen.push(scan.get_scan_progress());
        loop {
            match action {
                ScanAction::Send(command) => {
                    let lines = self.ask(&command);
                    action = scan.on_reply(Ok(lines));
                    seen.push(scan.get_scan_progress());
                }
                ScanAction::Done => return seen,
                ScanAction::Abort(e) => panic!("scan aborted: {}", e.message()),
            }
        }
    }
}

fn firmware() -> Debugger {
    let mut gdb = Debugger::new();
    gdb.on(
        "info variables",
        reply(&[
            r#"&"info variables\n""#,
            r#"~"All defined variables:\n""#,
            r#"~"12:\tuint16_t counter;\n""#,
            r#"~"13:\tstruct adc_t adc;\n""#,
            r#"~"14:\tchar *name;\n""#,
            r#"~"15:\tenum color shade;\n""#,
            r#"~"16:\tfloat temp;\n""#,
            "^done",
        ]),
    );
    gdb.scalar("counter", "short unsigned int", 2, 0x2000_0000);
    gdb.on(
        "ptype adc",
        reply(&[
            r#"&"ptype adc\n""#,
            r#"~"type = struct adc_t {\n""#,
            r#"~"    short unsigned int offset;\n""#,
            r#"~"    struct cal_t cal;\n""#,
            r#"~"    float gain;\n""#,
            r#"~"}\n""#,
            "^done",
        ]),
    );
    gdb.scalar("adc.offset", "short unsigned int", 2, 0x2000_0010);
    gdb.on(
        "ptype adc.cal",
        reply(&[
            r#"&"ptype adc.cal\n""#,
            r#"~"type = struct cal_t {\n""#,
            r#"~"    int zero;\n""#,
            r#"~"    int span;\n""#,
            r#"~"}\n""#,
            "^done",
        ]),
    );
    gdb.scalar("adc.cal.zero", "int", 4, 0x2000_0014);
    gdb.scalar("adc.cal.span", "int", 4, 0x2000_0018);
    gdb.scalar("adc.gain", "float", 4, 0x2000_001c);
    gdb.on("ptype name", scalar_reply("name", "char *"));
    gdb.on("ptype shade", scalar_reply("shade", "enum color {RED, GREEN}"));
    gdb.scalar("temp", "float", 4, 0x2000_0020);
    gdb
}

fn variable(name: &str, types: &str, address: u64, size: usize) -> VariableInfo {
    VariableInfo { name: name.to_string(), types: types.to_string(), address, size }
}

#[test]
fn scan_builds_the_catalog_in_declaration_order() {
    let mut gdb = firmware();
    let mut scan = GdbParser::launch();
    assert_eq!(scan.load_variable_list(), Vec::new());
    gdb.run(&mut scan);
    assert_eq!(
        scan.load_variable_list(),
        vec![
            variable("counter", "short unsigned int", 0x2000_0000, 2),
            variable("adc.offset", "short unsigned int", 0x2000_0010, 2),
            variable("adc.cal.zero", "int", 0x2000_0014, 4),
            variable("adc.cal.span", "int", 0x2000_0018, 4),
            variable("adc.gain", "float", 0x2000_001c, 4),
            variable("temp", "float", 0x2000_0020, 4),
        ]
    );
}

#[test]
fn scan_asks_each_question_once() {
    let mut gdb = firmware();
    let mut scan = GdbParser::launch();
    gdb.run(&mut scan);
    let mut sorted = gdb.asked.clone();
    sorted.sort();
    sorted.dedup();
    assert_eq!(sorted.len(), gdb.asked.len());
    assert_eq!(gdb.asked[0], "info variables");
    assert_eq!(gdb.asked[1], "ptype counter");
    assert_eq!(gdb.asked[2], "p sizeof counter");
    assert_eq!(gdb.asked[3], "print /x &(counter)");
    assert_eq!(gdb.asked[4], "ptype adc");
    assert_eq!(gdb.asked[5], "ptype adc.offset");
    let expanded: Vec<&String> = gdb.asked.iter().filter(|c| c.starts_with("ptype ")).collect();
    assert_eq!(expanded.len(), 10);
    assert!(!gdb.asked.contains(&"p sizeof name".to_string()));
    assert!(!gdb.asked.contains(&"p sizeof shade".to_string()));
    assert!(!gdb.asked.contains(&"p sizeof adc".to_string()));
}

#[test]
fn scan_progress_advances_per_top_level_symbol() {
    let mut gdb = firmware();
    let mut scan = GdbParser::launch();
    let seen = gdb.run(&mut scan);
    assert_eq!(seen[0], ScanProgress { done: 0, total: 0, complete: false });
    assert_eq!(seen[1], ScanProgress { done: 0, total: 0, complete: false });
    assert_eq!(seen[2], ScanProgress { done: 0, total: 5, complete: false });
    for pair in seen[2..].windows(2) {
        assert!(pair[0].done <= pair[1].done);
        assert_eq!(pair[0].total, pair[1].total);
        assert!(!pair[0].complete);
    }
    let last = seen.last().unwrap();
    assert_eq!(*last, ScanProgress { done: 5, total: 5, complete: true });
    assert_eq!(seen.iter().filter(|p| p.complete).count(), 1);
    assert_eq!(seen.iter().filter(|p| p.per_mille() == 1000).count(), 1);
    let steps: Vec<usize> = seen.iter().map(|p| p.done).collect();
    let mut distinct = steps.clone();
    distinct.dedup();
    assert_eq!(distinct, vec![0, 1, 2, 3, 4, 5]);
}

#[test]
fn scan_of_empty_image_is_complete_at_once() {
    let mut gdb = Debugger::new();
    gdb.on("info variables", reply(&[r#"&"info variables\n""#, "^done"]));
    let mut scan = GdbParser::launch();
    let seen = gdb.run(&mut scan);
    assert_eq!(gdb.asked, names(&["info variables"]));
    assert_eq!(*seen.last().unwrap(), ScanProgress { done: 0, total: 0, complete: true });
    assert_eq!(seen.last().unwrap().per_mille(), 1000);
    assert_eq!(scan.load_variable_list(), Vec::new());
}

#[test]
fn scan_survives_cyclic_descriptions() {
    let mut gdb = Debugger::new();
    gdb.on("info variables", reply(&[r#"~"1:\tstruct node root;\n""#]));
    let node = |symbol: &str| {
        vec![
            format!("&\"ptype {}\\n\"\n", symbol),
            "~\"type = struct node {\\n\"\n".to_string(),
            "~\"    struct node left;\\n\"\n".to_string(),
            "~\"    struct node right;\\n\"\n".to_string(),
            "~\"}\\n\"\n".to_string(),
            "^done\n".to_string(),
        ]
    };
    for symbol in
        ["root", "root.left", "root.right", "root.left.right", "root.right.left"]
    {
        gdb.on(&format!("ptype {}", symbol), node(symbol));
    }
    let mut scan = GdbParser::launch();
    gdb.run(&mut scan);
    assert_eq!(
        gdb.asked,
        names(&[
            "info variables",
            "ptype root",
            "ptype root.left",
            "ptype root.left.right",
            "ptype root.right",
            "ptype root.right.left",
        ])
    );
    assert_eq!(scan.load_variable_list(), Vec::new());
    assert!(scan.get_scan_progress().complete);
}

#[test]
fn scan_passes_over_symbols_without_size_or_address() {
    let mut gdb = Debugger::new();
    gdb.on(
        "info variables",
        reply(&[r#"~"1:\tint a;\n""#, r#"~"2:\tint b;\n""#, r#"~"3:\tint c;\n""#]),
    );
    gdb.scalar("a", "int", 4, 0x100);
    gdb.on("ptype b", scalar_reply("b", "int"));
    gdb.on("p sizeof b", reply(&["&\"p sizeof b\\n\"", "~\"$1 = 4\\n\"", "^done"]));
    gdb.on("ptype c", scalar_reply("c", "int"));
    let mut scan = GdbParser::launch();
    gdb.run(&mut scan);
    assert_eq!(scan.load_variable_list(), vec![variable("a", "int", 0x100, 4)]);
    assert!(gdb.asked.contains(&"print /x &(b)".to_string()));
    assert!(!gdb.asked.contains(&"print /x &(c)".to_string()));
}

#[test]
fn scan_aborts_when_the_session_fails() {
    let mut gdb = firmware();
    let mut scan = GdbParser::launch();
    let mut action = scan.scan_variables_none_blocking_start();
    for _ in 0..4 {
        match action {
            ScanAction::Send(command) => action = scan.on_reply(Ok(gdb.ask(&command))),
            other => panic!("unexpected {:?}", other),
        }
    }
    let broken = std::io::Error::new(std::io::ErrorKind::BrokenPipe, "gone");
    match scan.on_reply(Err(Error::IOError(broken))) {
        ScanAction::Abort(Error::IOError(e)) => assert_eq!(e.to_string(), "gone"),
        other => panic!("unexpected {:?}", other),
    }
    assert!(!scan.get_scan_progress().complete);
    assert_eq!(scan.get_scan_progress().done, 1);
    assert_eq!(scan.load_variable_list(), Vec::new());
    assert!(matches!(scan.on_reply(Ok(Vec::new())), ScanAction::Done));
    assert!(!scan.get_scan_progress().complete);
}

#[test]
fn replies_outside_a_scan_are_dropped() {
    let mut scan = GdbParser::launch();
    assert!(matches!(scan.on_reply(Ok(struct_reply())), ScanAction::Done));
    assert_eq!(scan.get_scan_progress(), ScanProgress { done: 0, total: 0, complete: false });
    let mut gdb = firmware();
    gdb.run(&mut scan);
    let before = scan.load_variable_list();
    assert!(matches!(scan.on_reply(Ok(struct_reply())), ScanAction::Done));
    assert_eq!(scan.load_variable_list(), before);
    assert!(scan.get_scan_progress().complete);
}

#[test]
fn a_new_scan_starts_from_nothing() {
    let mut gdb = firmware();
    let mut scan = GdbParser::launch();
    gdb.run(&mut scan);
    assert_eq!(scan.load_variable_list().len(), 6);
    match scan.scan_variables_none_blocking_start() {
        ScanAction::Send(command) => assert_eq!(command, "info variables"),
        other => panic!("unexpected {:?}", other),
    }
    assert_eq!(scan.load_variable_list(), Vec::new());
    assert_eq!(scan.get_scan_progress(), ScanProgress { done: 0, total: 0, complete: false });
}

#[test]
fn long_replies_are_read_in_good_time() {
    let mut lines = vec!["&\"ptype big\\n\"\n".to_string(), "~\"type = struct big {\\n\"\n".to_string()];
    for i in 0..2000 {
        lines.push(format!("~\"    int member_{};\\n\"\n", i));
    }
    lines.push("~\"}\\n\"\n".to_string());
    lines.push("^done\n".to_string());
    let started = std::time::Instant::now();
    let listed = GdbParser::get_variable_types(&lines).unwrap();
    assert_eq!(listed.len(), 2000);
    assert_eq!(listed[1999], "member_1999");
    assert!(started.elapsed() < std::time::Duration::from_secs(10));
}

#[test]
fn listed_variable_resolves_its_address() {
    let listed = VariableList {
        name: "adc.offset".to_string(),
        types: "short unsigned int".to_string(),
        address: "0x20000010".to_string(),
    };
    assert_eq!(
        listed.resolve(2),
        Some(variable("adc.offset", "short unsigned int", 0x2000_0010, 2))
    );
    let decimal = VariableList { address: "16".to_string(), ..listed.clone() };
    assert_eq!(decimal.resolve(2).unwrap().address, 16);
    let unreadable = VariableList { address: "<optimized out>".to_string(), ..listed };
    assert_eq!(unreadable.resolve(2), None);
}

#[test]
fn patterns_that_do_not_compile_capture_nothing() {
    let lines = reply(&["int a;", "(", "["]);
    assert_eq!(capture_all("(", &lines), Vec::<String>::new());
    assert_eq!(capture_first("[", &lines), None);
    assert_eq!(capture_all(r"(\w+);", &lines), names(&["a"]));
    assert_eq!(capture_first(r"\w+;", &lines), None);
    assert_eq!(capture_first(r"(x)?\w+;", &lines), None);
    assert_eq!(capture_first(r"(\w)\w*;|\[", &lines), Some("a".to_string()));
    let bracket_first = reply(&["[", "int b;"]);
    assert_eq!(capture_first(r"(\w)\w*;|\[", &bracket_first), Some("b".to_string()));
    assert_eq!(capture_all(r"(\w)\w*;|\[", &bracket_first), names(&["b"]));
}

#[test]
fn shapes_of_replies() {
    assert_eq!(reply_shape(&Vec::new()), ReplyShape::Empty);
    assert_eq!(reply_shape(&reply(&["^done"])), ReplyShape::Malformed);
    assert_eq!(reply_shape(&scalar_reply("p", "char *")), ReplyShape::Opaque);
    assert_eq!(reply_shape(&scalar_reply("e", "enum color {RED}")), ReplyShape::Opaque);
    assert_eq!(reply_shape(&scalar_reply("k", "const int")), ReplyShape::Opaque);
    assert_eq!(reply_shape(&reply(&["a *", "b"])), ReplyShape::Opaque);
    assert_eq!(reply_shape(&reply(&["a", "b", "c *"])), ReplyShape::Open);
    assert_eq!(reply_shape(&scalar_reply("i", "int")), ReplyShape::Open);
    assert_eq!(reply_shape(&scalar_reply("e", "enumerated")), ReplyShape::Open);
    assert_eq!(reply_shape(&struct_reply()), ReplyShape::Open);
}

#[test]
fn listing_prefers_names() {
    assert_eq!(listing_of(names(&["a", "b"]), Some("int".to_string())), names(&["a", "b"]));
    assert_eq!(listing_of(names(&["a"]), None), names(&["a"]));
    assert_eq!(listing_of(Vec::new(), Some("int".to_string())), names(&["int"]));
    assert_eq!(listing_of(Vec::new(), None), Vec::<String>::new());
}

#[test]
fn children_keep_the_order_of_the_listing() {
    assert_eq!(
        make_children("a.b", &names(&["c", "a", "d", "b", "a.b", "c"])),
        names(&["a.b.c", "a.b.d", "a.b.a.b", "a.b.c"])
    );
    assert_eq!(make_children("", &names(&["x", ""])), names(&[".x"]));
    assert_eq!(make_children("a", &Vec::new()), Vec::<String>::new());
}

fn send(action: ScanAction) -> String {
    match action {
        ScanAction::Send(command) => command,
        other => panic!("unexpected {:?}", other),
    }
}

#[test]
fn findings_drive_the_scan() {
    let mut scan = GdbParser::launch();
    assert!(matches!(scan.apply(Finding::Roots(names(&["a"]))), ScanAction::Done));
    assert_eq!(send(scan.scan_variables_none_blocking_start()), "info variables");
    assert_eq!(send(scan.apply(Finding::Roots(names(&["s", "t"])))), "ptype s");
    assert_eq!(send(scan.apply(Finding::Members(names(&["s.a", "s.b"])))), "ptype s.a");
    assert_eq!(send(scan.apply(Finding::Leaf(Some("int".to_string())))), "p sizeof s.a");
    assert_eq!(send(scan.apply(Finding::Size(Some(4)))), "print /x &(s.a)");
    assert_eq!(send(scan.apply(Finding::Address(Some(0x100)))), "ptype s.b");
    assert_eq!(send(scan.apply(Finding::Members(Vec::new()))), "ptype t");
    assert_eq!(scan.get_scan_progress(), ScanProgress { done: 1, total: 2, complete: false });
    assert_eq!(send(scan.apply(Finding::Leaf(Some("char".to_string())))), "p sizeof t");
    assert_eq!(send(scan.apply(Finding::Size(Some(1)))), "print /x &(t)");
    assert!(matches!(scan.apply(Finding::Address(Some(0x200))), ScanAction::Done));
    assert_eq!(
        scan.load_variable_list(),
        vec![variable("s.a", "int", 0x100, 4), variable("t", "char", 0x200, 1)]
    );
    assert_eq!(scan.get_scan_progress(), ScanProgress { done: 2, total: 2, complete: true });
}

#[test]
fn findings_without_a_value_pass_the_symbol_over() {
    let mut scan = GdbParser::launch();
    scan.scan_variables_none_blocking_start();
    assert_eq!(send(scan.apply(Finding::Roots(names(&["a", "b", "c", "d"])))), "ptype a");
    assert_eq!(send(scan.apply(Finding::Leaf(None))), "ptype b");
    assert_eq!(send(scan.apply(Finding::Leaf(Some("int".to_string())))), "p sizeof b");
    assert_eq!(send(scan.apply(Finding::Size(None))), "ptype c");
    assert_eq!(send(scan.apply(Finding::Leaf(Some("int".to_string())))), "p sizeof c");
    assert_eq!(send(scan.apply(Finding::Size(Some(4)))), "print /x &(c)");
    assert_eq!(send(scan.apply(Finding::Address(None))), "ptype d");
    assert!(matches!(scan.apply(Finding::Leaf(None)), ScanAction::Done));
    assert_eq!(scan.load_variable_list(), Vec::new());
    assert!(scan.get_scan_progress().complete);
}

#[test]
fn findings_that_do_not_fit_ask_again() {
    let mut scan = GdbParser::launch();
    assert_eq!(send(scan.scan_variables_none_blocking_start()), "info variables");
    assert_eq!(send(scan.apply(Finding::Size(Some(4)))), "info variables");
    assert_eq!(send(scan.apply(Finding::Leaf(None))), "info variables");
    assert_eq!(send(scan.apply(Finding::Roots(names(&["a"])))), "ptype a");
    assert_eq!(send(scan.apply(Finding::Roots(names(&["b"])))), "ptype a");
    assert_eq!(send(scan.apply(Finding::Address(Some(1)))), "ptype a");
    assert_eq!(send(scan.apply(Finding::Leaf(Some("int".to_string())))), "p sizeof a");
    assert_eq!(send(scan.apply(Finding::Members(names(&["a.x"])))), "p sizeof a");
    assert_eq!(send(scan.apply(Finding::Size(Some(4)))), "print /x &(a)");
    assert_eq!(send(scan.apply(Finding::Size(Some(8)))), "print /x &(a)");
    assert!(matches!(scan.apply(Finding::Address(Some(0x10))), ScanAction::Done));
    assert_eq!(scan.load_variable_list(), vec![variable("a", "int", 0x10, 4)]);
}

#[test]
fn replies_are_read_by_the_pending_query() {
    let listing = reply(&[r#"~"1:\tint a;\n""#, r#"~"2:\tchar b[8];\n""#]);
    match GdbParser::read_reply(Query::List, "", Ok(listing)) {
        Finding::Roots(roots) => assert_eq!(roots, names(&["a", "b"])),
        other => panic!("unexpected {:?}", other),
    }
    match GdbParser::read_reply(Query::Describe, "adc", Ok(struct_reply())) {
        Finding::Members(members) => {
            assert_eq!(members, names(&["adc.offset", "adc.gain", "adc.channel"]))
        }
        other => panic!("unexpected {:?}", other),
    }
    match GdbParser::read_reply(Query::Describe, "t", Ok(scalar_reply("t", "float"))) {
        Finding::Leaf(found) => assert_eq!(found, Some("float".to_string())),
        other => panic!("unexpected {:?}", other),
    }
    match GdbParser::read_reply(Query::Describe, "p", Ok(scalar_reply("p", "char *"))) {
        Finding::Leaf(found) => assert_eq!(found, None),
        other => panic!("unexpected {:?}", other),
    }
    match GdbParser::read_reply(Query::Describe, "x", Ok(reply(&["^done"]))) {
        Finding::Members(members) => assert_eq!(members, Vec::<String>::new()),
        other => panic!("unexpected {:?}", other),
    }
    let size = reply(&["&\"p sizeof t\\n\"", "~\"$1 = 4\\n\"", "^done"]);
    assert!(matches!(GdbParser::read_reply(Query::Size, "t", Ok(size)), Finding::Size(Some(4))));
    assert!(matches!(
        GdbParser::read_reply(Query::Size, "t", Ok(Vec::new())),
        Finding::Size(None)
    ));
    let address = reply(&["~\"$1 = 0x20000020\\n\""]);
    assert!(matches!(
        GdbParser::read_reply(Query::Address, "t", Ok(address)),
        Finding::Address(Some(0x2000_0020))
    ));
    let wide = reply(&["~\"$1 = 0x10000000000000000\\n\""]);
    assert!(matches!(
        GdbParser::read_reply(Query::Address, "t", Ok(wide)),
        Finding::Address(None)
    ));
    assert!(matches!(
        GdbParser::read_reply(Query::Address, "t", Err(Error::ParseError)),
        Finding::Broken(Error::ParseError)
    ));
}
