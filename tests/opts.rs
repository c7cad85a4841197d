use mato::opts::{Opt, Parser};

fn flag(short_name: &str, long_name: &str, description: &str) -> Opt {
    Opt::Flag {
        short_name: short_name.to_string(),
        long_name: long_name.to_string(),
        description: description.to_string(),
    }
}

fn value(short_name: &str, long_name: &str, description: &str, default: &str) -> Opt {
    Opt::Value {
        short_name: short_name.to_string(),
        long_name: long_name.to_string(),
        description: description.to_string(),
        default: default.to_string(),
    }
}

#[test]
fn add_opts() {
    let mut p = Parser::new();
    let opt = flag("s", "some", "Some option");
    assert_eq!(p.short_opts.len(), 5);
    p.add_opt(opt);
    assert_eq!(p.short_opts.len(), 6);
}

#[test]
fn parse_short_opt_cluster() {
    let p = Parser::new();
    let r = p.parse(vec!["-hv".to_string()]).unwrap();
    assert!(r.get_flag("version"), "version flag set");
    assert!(r.get_flag("help"), "help flag set");
}

#[test]
fn parse_short_opt_cluster_with_val() {
    let mut p = Parser::new();
    let opt = value("l", "lang", "Set language", "den");
    p.add_opt(opt);
    let r = p.parse(vec!["-hl".to_string(), "en".to_string()]).unwrap();
    assert!(r.get_flag("help"), "help flag set");
    assert_eq!(r.get_opt("lang"), "en".to_string());
}

#[test]
fn parameters_defaults_and_missing_values() {
    let mut p = Parser::new();
    let lang = p.add_opt(value("l", "lang", "Set language", "den"));
    let watch = p.add_opt(flag("w", "watch", "Watch"));
    let r = p
        .parse(vec!["prog".to_string(), "--watch".to_string(), "doc.md".to_string()])
        .unwrap();
    assert_eq!(r.command_name, "prog");
    assert_eq!(r.params, vec!["doc.md".to_string()]);
    assert!(watch.is_set(&r));
    assert_eq!(lang.val(&r), "den");
    assert_eq!(mato::establish_log_level(&r), 0);
    let e = p.parse(vec!["prog".to_string(), "-l".to_string()]).unwrap_err();
    assert_eq!(e.0, "lang");
}

#[test]
fn adding_an_option_again_replaces_it() {
    let mut p = Parser::new();
    p.add_opt(flag("h", "help", "Other help"));
    assert_eq!(p.short_opts.len(), 5);
    assert_eq!(p.long_opts.len(), 5);
}

#[test]
fn log_level_from_flags() {
    let p = Parser::new();
    let r = p.parse(vec!["prog".to_string(), "-dt".to_string()]).unwrap();
    assert_eq!(mato::establish_log_level(&r), 2);
}

#[test]
fn parse_version_opt() {
    let mut p = Parser::new();
    let opt = flag("s", "some", "Some option");
    p.add_opt(opt);
    let r = p.parse(vec!["-s".to_string()]).unwrap();
    assert!(r.get_flag("some"));
    assert_eq!(r.get_opt("some"), "".to_string())
}

#[test]
fn parse_source_file_val_opt() {
    let mut p = Parser::new();
    let opt = value("s", "source-file", "Some option", "def");
    p.add_opt(opt);
    let r = p.parse(vec!["-s".to_string(), "LICENSE".to_string()]).unwrap();
    assert_eq!(r.get_opt("source-file"), "LICENSE".to_string())
}
