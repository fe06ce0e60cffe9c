use std::path::{Path, PathBuf};

use mesh_agents::codex::{
    installed_line, managed_mcp_config, mesh_agents_skill, removed_line, replace_managed_block,
    require_mesh_agents_skill, setup_lines, setup_preview, status_lines, SKILL_NAME,
};
use mesh_agents::locations::{
    codex_config_path, codex_skills_dir, resolve_agents_dir, resolve_data_dir,
};
use mesh_agents::order::text_precedes;
use mesh_agents::pairs::{EnvMap, Pair};
use mesh_agents::paths::{absolute, file_name, join, json_extension, parent};
use mesh_agents::skills::{
    copy_step, install_decision, skill_file_path, CopyStep, InstallMode, SkillDescriptor,
    SkillInstallPlan, SkillTarget, SKILL_DIR_NAME, SKILL_FILE_NAME,
};
use mesh_agents::tools::a2a_tools;
use mesh_agents::templates::{env_value, expand_env_vars, TemplateContext};
use mesh_agents::text::{
    blank, decimal_text, ends_with, is_whitespace, lines, parse_usize, signed_decimal_text,
    strip_prefix, trim, trim_end, trim_start,
};

#[test]
fn replaces_existing_managed_block() {
    let existing = "alpha\n# BEGIN mesh-agents\nold\n# END mesh-agents\nomega\n";
    let next = replace_managed_block(existing, "new");

    assert!(next.contains("alpha\n# BEGIN mesh-agents\nnew\n# END mesh-agents\nomega"));
    assert!(!next.contains("old"));
}

#[test]
fn managed_blocks_are_set_once() {
    let block = "# BEGIN mesh-agents\nnew\n# END mesh-agents\n";
    assert_eq!(replace_managed_block("", "new"), block);
    assert_eq!(replace_managed_block(" \n\t", "new"), format!(" \n\t{block}"));
    assert_eq!(replace_managed_block("a", "new"), format!("a\n{block}"));
    assert_eq!(replace_managed_block("a\n", "new"), format!("a\n{block}"));
    assert_eq!(
        replace_managed_block("a\n# BEGIN mesh-agents\nrest \n", "new"),
        format!("a\n# BEGIN mesh-agents\nrest\n{block}")
    );
    for existing in ["", "a", "a\n", "x\n# BEGIN mesh-agents\nq\n# END mesh-agents\n\n\ny"] {
        let once = replace_managed_block(existing, "new");
        assert_eq!(replace_managed_block(&once, "new"), once);
        let later = replace_managed_block(existing, "later\nlines");
        assert_eq!(replace_managed_block(&once, "later\nlines"), later);
    }
}

#[test]
fn codex_is_configured() {
    let config = managed_mcp_config("agents");
    assert!(config.starts_with("[mcp_servers.mesh_a2a]\ncommand = \"agents\"\n"));
    let table: toml::Table = config.parse().unwrap();
    let server = &table["mcp_servers"]["mesh_a2a"];
    assert_eq!(server["args"].as_array().unwrap().len(), 2);
    let enabled: Vec<&str> = server["enabled_tools"]
        .as_array()
        .unwrap()
        .iter()
        .map(|name| name.as_str().unwrap())
        .collect();
    let offered = a2a_tools();
    let offered: Vec<&str> = offered.iter().map(|tool| tool.name.as_str()).collect();
    assert_eq!(enabled, offered);
    assert_eq!(server["default_tools_approval_mode"].as_str(), Some("prompt"));
    assert!(mesh_agents_skill().starts_with("---\nname: mesh-agents\n"));
    assert!(require_mesh_agents_skill("mesh-agents").is_ok());
    assert_eq!(
        require_mesh_agents_skill("other").unwrap_err(),
        "unknown skill `other`; expected `mesh-agents`"
    );
    assert_eq!(SKILL_NAME, "mesh-agents");
    assert_eq!(installed_line("/s"), "installed mesh-agents skill at /s");
    assert_eq!(removed_line("/s"), "removed mesh-agents skill from /s");
    assert_eq!(
        status_lines(false, "/s"),
        ["skill\tinstalled\tdestination", "mesh-agents\tfalse\t/s"]
    );
    assert_eq!(
        setup_preview("/s", "/c", "agents"),
        [
            "Would write skill: /s".to_string(),
            "Would update config: /c".to_string(),
            managed_mcp_config("agents"),
        ]
    );
    assert_eq!(
        setup_lines("/s", "/c"),
        ["configured Codex MCP at /c", "installed mesh-agents skill at /s"]
    );
}

#[test]
fn locations_default_to_the_home_directory() {
    let home = Some("/home/someone".to_string());
    let given = Some("/elsewhere".to_string());
    assert_eq!(
        resolve_agents_dir(&None, &home).unwrap(),
        "/home/someone/.mesh-llm/agents"
    );
    assert_eq!(resolve_agents_dir(&given, &None).unwrap(), "/elsewhere");
    assert_eq!(
        resolve_agents_dir(&None, &None).unwrap_err(),
        "could not determine home directory"
    );
    assert_eq!(resolve_data_dir(&None, &home).unwrap(), "/home/someone/.mesh-llm");
    assert_eq!(
        codex_config_path(&None, &home).unwrap(),
        "/home/someone/.codex/config.toml"
    );
    assert_eq!(
        codex_skills_dir(&None, &home).unwrap(),
        "/home/someone/.codex/skills"
    );
    assert_eq!(codex_skills_dir(&given, &home).unwrap(), "/elsewhere");
}

#[test]
fn descriptor_requires_skill_file() {
    let error = SkillDescriptor::from_agent_dir("agent", "/tmp/missing", false)
        .expect_err("missing skill should be rejected");

    assert!(error.contains("does not provide"));
    assert_eq!(error, "agent agent does not provide skill/SKILL.md");
}

#[test]
fn plans_codex_destination() {
    let descriptor = SkillDescriptor::from_agent_dir("pr-review", "/tmp/agent", true)
        .expect("load skill descriptor");
    assert_eq!(descriptor.source_dir, "/tmp/agent/skill");
    assert_eq!(descriptor.skill_file, skill_file_path("/tmp/agent"));
    let plan = SkillInstallPlan::codex(descriptor, "/tmp/codex-skills", InstallMode::Copy);

    assert_eq!(plan.destination_dir, "/tmp/codex-skills/mesh-llm-pr-review");
    assert_eq!(plan.mode, InstallMode::Copy);
    assert_eq!(plan.target, SkillTarget::Codex);
    assert_eq!(format!("{SKILL_DIR_NAME}/{SKILL_FILE_NAME}"), "skill/SKILL.md");
}

#[test]
fn skills_are_replaced_only_by_force() {
    let result = install_decision("/skills/x", false, false).unwrap();
    assert!(!result.replaced_existing);
    assert_eq!(result.destination_dir, "/skills/x");
    assert!(install_decision("/skills/x", true, true).unwrap().replaced_existing);
    assert_eq!(
        install_decision("/skills/x", true, false).unwrap_err(),
        "skill destination /skills/x already exists; pass --force to replace it"
    );
    assert_eq!(copy_step(true, false), CopyStep::Descend);
    assert_eq!(copy_step(false, true), CopyStep::CopyFile);
    assert_eq!(copy_step(false, false), CopyStep::Skip);
}

#[test]
fn whitespace_is_that_of_unicode() {
    for number in 0..=0x10ffff_u32 {
        if let Some(c) = char::from_u32(number) {
            assert_eq!(is_whitespace(c), c.is_whitespace());
        }
    }
}

#[test]
fn texts_are_cut_as_std_cuts_them() {
    let samples = [
        "",
        " ",
        "a",
        " \u{a0}a b\t\n",
        "a\r\nb\n\nc",
        "a\r",
        "\r\n",
        "\n",
        "a\nb\r\n\r\n",
        "data: x",
        "da",
    ];
    for text in samples {
        assert_eq!(trim(text), text.trim());
        assert_eq!(trim_start(text), text.trim_start());
        assert_eq!(trim_end(text), text.trim_end());
        assert_eq!(blank(text), text.trim().is_empty());
        assert_eq!(lines(text), text.lines().collect::<Vec<_>>());
        assert_eq!(strip_prefix(text, "data:").as_deref(), text.strip_prefix("data:"));
        assert_eq!(ends_with(text, "\n"), text.ends_with('\n'));
        for other in samples {
            assert_eq!(text_precedes(text, other), text < other);
        }
    }
}

#[test]
fn numbers_are_written_and_read_as_std_does() {
    for number in [0_u128, 7, 10, 1234567890, u128::MAX] {
        assert_eq!(decimal_text(number), number.to_string());
    }
    for number in [0_i64, -1, -32601, i64::MIN, i64::MAX] {
        assert_eq!(signed_decimal_text(number), number.to_string());
    }
    for text in ["", "+", "-", "-0", "0", "+7", "007", "18446744073709551615", "18446744073709551616", " 1", "1a", "٣"] {
        assert_eq!(parse_usize(text), text.parse::<usize>().ok());
    }
    for number in [0_usize, 50, usize::MAX] {
        assert_eq!(parse_usize(&decimal_text(number as u128)), Some(number));
    }
}

#[test]
fn paths_are_those_of_std() {
    let samples = [
        "", "/", "//", ".", "..", "./", "/.", "/..", "a", "a/", "a//", "a/.", "a/..", "a/b", "/a",
        "/a/", "/a/./b/.", "a.json", "/x/.json", "x.JSON", "a.b.json", "dir.json/", "dir.json/x",
        ".a.json", "json", "a/../b", "é/ü.json",
    ];
    for path in samples {
        let std_path = Path::new(path);
        assert_eq!(absolute(path), std_path.is_absolute(), "{path}");
        assert_eq!(
            file_name(path).as_deref(),
            std_path.file_name().map(|name| name.to_str().unwrap()),
            "{path}"
        );
        assert_eq!(
            parent(path).as_deref(),
            std_path.parent().map(|parent| parent.to_str().unwrap()),
            "{path}"
        );
        assert_eq!(
            json_extension(path),
            std_path.extension().is_some_and(|extension| extension == "json"),
            "{path}"
        );
        for base in samples {
            let expected: PathBuf = Path::new(base).join(path);
            assert_eq!(join(base, path), expected.to_str().unwrap(), "{base} {path}");
        }
    }
}

fn environment() -> Vec<Pair> {
    vec![Pair::new("HOME", "/home/x"), Pair::new("EMPTY", "")]
}

#[test]
fn environment_variables_are_expanded() {
    let env = environment();
    let expand = |text: &str| expand_env_vars(text, &env);
    assert_eq!(expand("$HOME/a ${HOME}b $EMPTY|").unwrap(), "/home/x/a /home/xb |");
    assert_eq!(expand("plain").unwrap(), "plain");
    assert_eq!(expand("$HOME").unwrap(), "/home/x");
    assert_eq!(expand("end$").unwrap(), "end$");
    assert_eq!(
        expand("$NOPE").unwrap_err(),
        "environment variable `NOPE` used in `$NOPE` is not set"
    );
    assert_eq!(
        expand("${}").unwrap_err(),
        "empty environment variable reference in `${}`"
    );
    assert_eq!(
        expand("${HOME").unwrap_err(),
        "unterminated environment variable in `${HOME`"
    );
    assert_eq!(env_value("HOME", "s", &env).unwrap(), "/home/x");
    assert_eq!(expand("${HOME}").unwrap(), expand("$HOME").unwrap());
}

#[test]
fn templates_are_expanded() {
    let context = TemplateContext {
        values: vec![Pair::new("agent.id", "a"), Pair::new("agent.dir", "$HOME/d")],
        environment: environment(),
    };
    assert_eq!(context.expand("{{ agent.id }}-{{agent.id}}").unwrap(), "a-a");
    assert_eq!(context.expand_mesh_templates("{{ agent.dir }}").unwrap(), "$HOME/d");
    assert_eq!(context.expand("{{ agent.dir }}").unwrap(), "/home/x/d");
    assert_eq!(context.expand("{{ env.HOME }}").unwrap(), "/home/x");
    assert_eq!(
        context.expand("{{ nope }}").unwrap_err(),
        "unknown template variable `{{ nope }}` in `{{ nope }}`"
    );
    assert_eq!(
        context.expand("{{ agent.id").unwrap_err(),
        "unterminated template variable in `{{ agent.id`"
    );
    assert_eq!(context.expand("no } templates {").unwrap(), "no } templates {");
    for reference in ["$HOME", "${HOME}", "{{ env.HOME }}"] {
        for (rest, filled) in [
            ("", ""),
            ("/bin/$EMPTY/{{ agent.id }}", "/bin//a"),
            ("-{{ agent.dir }}", "-/home/x/d"),
            ("}", "}"),
        ] {
            let text = format!("{reference}{rest}");
            assert_eq!(context.expand(&text).unwrap(), format!("/home/x{filled}"));
        }
    }
    assert_eq!(context.expand("${HOME}s").unwrap(), "/home/xs");
    assert_eq!(
        context.expand("$HOMEs").unwrap_err(),
        "environment variable `HOMEs` used in `$HOMEs` is not set"
    );
}

#[test]
fn environment_maps_keep_their_names_in_order() {
    let mut map = EnvMap::new();
    map.insert("b".to_string(), "1".to_string());
    map.insert("a".to_string(), "2".to_string());
    map.insert("b".to_string(), "3".to_string());
    let held: Vec<(&str, &str)> = map
        .pairs()
        .iter()
        .map(|pair| (pair.name.as_str(), pair.value.as_str()))
        .collect();
    assert_eq!(held, [("a", "2"), ("b", "3")]);
    assert_eq!(map.get("b").as_deref(), Some("3"));
    assert_eq!(map.get("c"), None);
}
