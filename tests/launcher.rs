use sbt_client::decimal::{decimal_string, parse_i64, signed_decimal_bytes};
use sbt_client::launcher::{
    arg_kind_of, jar_file, make_url, parse_port, props_sbt_version, release_line_of, url_base, ArgError,
    ArgKind, Launcher, ReleaseLine, ValueKind,
};

#[test]
fn url_bases() {
    assert_eq!(url_base("0.7.5"), "http://simple-build-tool.googlecode.com");
    assert_eq!(url_base("0.10.1"), "http://repo.typesafe.com/typesafe/ivy-releases");
    assert_eq!(url_base("0.11.2"), "http://repo.typesafe.com/typesafe/ivy-releases");
    assert_eq!(url_base("0.13.16"), "http://repo.typesafe.com/typesafe/ivy-releases");
    assert_eq!(url_base("1.0.0"), "http://repo.scala-sbt.org/scalasbt/maven-releases");
    assert_eq!(release_line_of("0.11.3"), ReleaseLine::Ivy);
    assert_eq!(release_line_of("0.11.1"), ReleaseLine::ScalaTools);
    assert_eq!(release_line_of(""), ReleaseLine::Maven);
}

#[test]
fn launcher_urls() {
    assert_eq!(make_url("0.7.5"), "http://simple-build-tool.googlecode.com/files/sbt-launch-0.7.7.jar");
    assert_eq!(
        make_url("0.10.1"),
        "http://repo.typesafe.com/typesafe/ivy-releases/org.scala-tools.sbt/sbt-launch/0.10.1/sbt-launch.jar"
    );
    assert_eq!(
        make_url("0.11.1"),
        "http://repo.typesafe.com/typesafe/ivy-releases/org.scala-tools.sbt/sbt-launch/0.11.1/sbt-launch.jar"
    );
    assert_eq!(
        make_url("0.13.16"),
        "http://repo.typesafe.com/typesafe/ivy-releases/org.scala-sbt/sbt-launch/0.13.16/sbt-launch.jar"
    );
    assert_eq!(
        make_url("1.0.2"),
        "http://repo.scala-sbt.org/scalasbt/maven-releases/org/scala-sbt/sbt-launch/1.0.2/sbt-launch.jar"
    );
}

#[test]
fn jar_file_path() {
    assert_eq!(jar_file("/home/u/.sbt/launchers", "0.13.16"), "/home/u/.sbt/launchers/0.13.16/sbt-launch.jar");
}

#[test]
fn new_launcher() {
    let l = Launcher::new();
    assert_eq!(l.java_cmd, "java");
    assert!(l.sbt_version.is_empty() && l.jvm_opts.is_empty() && l.residual_args.is_empty());
    assert!(!l.verbose && !l.sbt_new);
}

#[test]
fn sbt_version_choice() {
    let mut l = Launcher::new();
    l.set_sbt_version("");
    assert_eq!(l.sbt_version, "0.13.16");
    l.set_sbt_version("1.1.0");
    assert_eq!(l.sbt_version, "1.1.0");
    l.sbt_explicit_version = "0.13.9".to_string();
    l.set_sbt_version("1.1.0");
    assert_eq!(l.sbt_version, "0.13.9");
}

#[test]
fn jvm_options() {
    let mut l = Launcher::new();
    l.add_jvm_opt("-Dfoo=bar");
    l.add_debugger(5005);
    l.add_residual("compile");
    assert_eq!(
        l.jvm_opts,
        vec![
            "-Dfoo=bar".to_string(),
            "-Xdebug".to_string(),
            "-Xrunjdwp:transport=dt_socket,server=y,suspend=n,address=5005".to_string(),
        ]
    );
    assert_eq!(l.residual_args, vec!["compile".to_string()]);
    assert_eq!(l.default_jvm_opts(), vec!["-XX:MaxPermSize=384m", "-Xms512m", "-Xmx1536m", "-Xss2m"]);
}

#[test]
fn decimals() {
    assert_eq!(decimal_string(0), "0");
    assert_eq!(decimal_string(18446744073709551615), "18446744073709551615");
    assert_eq!(signed_decimal_bytes(i64::MIN), b"-9223372036854775808".to_vec());
    assert_eq!(parse_i64(b"-9223372036854775808"), Some(i64::MIN));
    assert_eq!(parse_i64(b"9223372036854775808"), None);
    assert_eq!(parse_i64(b"-"), None);
    assert_eq!(parse_i64(b"+1"), None);
    assert_eq!(parse_i64(b"42"), Some(42));
}

fn strings(v: &[&str]) -> Vec<String> {
    v.iter().map(|s| s.to_string()).collect()
}

#[test]
fn arguments_apply_in_order() {
    let mut l = Launcher::new();
    let args = strings(&["-v", "-Dx=1", "-J-Xmx2g", "-jvm-debug", "5005", "-sbt-jar", "/tmp/s.jar", "compile", "test"]);
    assert_eq!(l.apply_args(&args), Ok(false));
    assert!(l.verbose);
    assert_eq!(
        l.jvm_opts,
        strings(&["-Dx=1", "-Xmx2g", "-Xdebug", "-Xrunjdwp:transport=dt_socket,server=y,suspend=n,address=5005"])
    );
    assert_eq!(l.sbt_jar, "/tmp/s.jar");
    assert_eq!(l.residual_args, strings(&["compile", "test"]));
}

#[test]
fn new_and_help() {
    let mut l = Launcher::new();
    assert_eq!(l.apply_args(&strings(&["new", "scala/scala-seed.g8", "-help", "ignored"])), Ok(true));
    assert!(l.sbt_new);
    assert_eq!(l.sbt_explicit_version, "0.13.16");
    assert_eq!(l.residual_args, strings(&["new", "scala/scala-seed.g8"]));
    assert_eq!(arg_kind_of("-h"), ArgKind::Help);
    assert_eq!(arg_kind_of("-J"), ArgKind::JavaOpt);
    assert_eq!(arg_kind_of("-"), ArgKind::Other);
}

#[test]
fn argument_errors() {
    let mut l = Launcher::new();
    assert_eq!(
        l.apply_args(&strings(&["-jvm-debug"])),
        Err(ArgError::MissingValue { index: 0, kind: ValueKind::Port })
    );
    let mut l = Launcher::new();
    assert_eq!(
        l.apply_args(&strings(&["x", "-sbt-jar", "-v"])),
        Err(ArgError::MissingValue { index: 1, kind: ValueKind::Path })
    );
    let mut l = Launcher::new();
    assert_eq!(l.apply_args(&strings(&["-jvm-debug", "70000"])), Err(ArgError::BadPort { index: 1 }));
    assert_eq!(parse_port("+8080"), Some(8080));
    assert_eq!(parse_port("65535"), Some(65535));
    assert_eq!(parse_port("eighty"), None);
}

#[test]
fn prepare_and_java_command() {
    let mut l = Launcher::new();
    l.prepare("1.1.0");
    assert_eq!(l.sbt_version, "1.1.0");
    assert_eq!(l.residual_args, strings(&["shell"]));
    l.sbt_jar = "/j/sbt-launch.jar".to_string();
    l.add_jvm_opt("-Da=b");
    assert_eq!(
        l.java_command(),
        strings(&[
            "java", "-XX:MaxPermSize=384m", "-Xms512m", "-Xmx1536m", "-Xss2m", "-Da=b", "-jar",
            "/j/sbt-launch.jar", "shell"
        ])
    );
    let mut l = Launcher::new();
    l.add_residual("compile");
    l.prepare("");
    assert_eq!(l.sbt_version, "0.13.16");
    assert_eq!(l.residual_args, strings(&["compile"]));
}

#[test]
fn build_properties_version() {
    assert_eq!(props_sbt_version("sbt.version=1.0.4\n"), Some("1.0.4".to_string()));
    assert_eq!(props_sbt_version("# comment\r\nsbt.version = 0.13.16 \r\nother=1"), Some("0.13.16".to_string()));
    assert_eq!(props_sbt_version("a=1\nsbt.version=1=2"), Some("1".to_string()));
    assert_eq!(props_sbt_version("a=1\n"), None);
    assert_eq!(props_sbt_version("sbt.version\n"), None);
    assert_eq!(props_sbt_version(""), None);
}
