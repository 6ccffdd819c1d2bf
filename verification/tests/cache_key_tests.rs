use llm_tool_test::cache_key::{compute_cache_key, CacheKey};

#[test]
fn test_cache_key_compute_basic() {
    let scenario_yaml = "name: test\ntask:\n  prompt: test";
    let prompt = "Create a test note";
    let tool = "opencode";
    let model = "gpt-4o";

    let key = CacheKey::compute(scenario_yaml, prompt, tool, model);

    assert_eq!(key.tool, "opencode");
    assert_eq!(key.model, "gpt-4o");
    assert!(!key.scenario_hash.is_empty());
    assert!(!key.prompt_hash.is_empty());
}

#[test]
fn test_cache_key_consistent_hashes() {
    let scenario_yaml = "name: test\ntask:\n  prompt: test";
    let prompt = "Create a test note";
    let tool = "opencode";
    let model = "gpt-4o";

    let key1 = CacheKey::compute(scenario_yaml, prompt, tool, model);
    let key2 = CacheKey::compute(scenario_yaml, prompt, tool, model);

    assert_eq!(key1.scenario_hash, key2.scenario_hash);
    assert_eq!(key1.prompt_hash, key2.prompt_hash);
}

#[test]
fn test_cache_key_different_scenarios() {
    let scenario1 = "name: test1\ntask:\n  prompt: test";
    let scenario2 = "name: test2\ntask:\n  prompt: test";
    let prompt = "Create a test note";
    let tool = "opencode";
    let model = "gpt-4o";

    let key1 = CacheKey::compute(scenario1, prompt, tool, model);
    let key2 = CacheKey::compute(scenario2, prompt, tool, model);

    assert_ne!(key1.scenario_hash, key2.scenario_hash);
    assert_eq!(key1.prompt_hash, key2.prompt_hash);
}

#[test]
fn test_cache_key_different_prompts() {
    let scenario_yaml = "name: test\ntask:\n  prompt: test";
    let prompt1 = "Create a test note";
    let prompt2 = "Create a different note";
    let tool = "opencode";
    let model = "gpt-4o";

    let key1 = CacheKey::compute(scenario_yaml, prompt1, tool, model);
    let key2 = CacheKey::compute(scenario_yaml, prompt2, tool, model);

    assert_eq!(key1.scenario_hash, key2.scenario_hash);
    assert_ne!(key1.prompt_hash, key2.prompt_hash);
}

#[test]
fn test_cache_key_different_tools() {
    let scenario_yaml = "name: test\ntask:\n  prompt: test";
    let prompt = "Create a test note";
    let tool1 = "opencode";
    let tool2 = "editor-agent";
    let model = "gpt-4o";

    let key1 = CacheKey::compute(scenario_yaml, prompt, tool1, model);
    let key2 = CacheKey::compute(scenario_yaml, prompt, tool2, model);

    assert_eq!(key1.scenario_hash, key2.scenario_hash);
    assert_eq!(key1.prompt_hash, key2.prompt_hash);
    assert_ne!(key1.tool, key2.tool);
}

#[test]
fn test_cache_key_different_models() {
    let scenario_yaml = "name: test\ntask:\n  prompt: test";
    let prompt = "Create a test note";
    let tool = "opencode";
    let model1 = "gpt-4o";
    let model2 = "larger-model";

    let key1 = CacheKey::compute(scenario_yaml, prompt, tool, model1);
    let key2 = CacheKey::compute(scenario_yaml, prompt, tool, model2);

    assert_eq!(key1.scenario_hash, key2.scenario_hash);
    assert_eq!(key1.prompt_hash, key2.prompt_hash);
    assert_ne!(key1.model, key2.model);
}

#[test]
fn test_cache_key_as_string() {
    let scenario_yaml = "name: test\ntask:\n  prompt: test";
    let prompt = "Create a test note";
    let tool = "opencode";
    let model = "gpt-4o";

    let key = CacheKey::compute(scenario_yaml, prompt, tool, model);
    let key_string = key.as_string();

    assert!(key_string.contains(&key.scenario_hash));
    assert!(key_string.contains(&key.prompt_hash));
    assert!(key_string.contains(&key.tool));
    assert!(key_string.contains(&key.model));
}

#[test]
fn test_cache_key_equality() {
    let scenario_yaml = "name: test\ntask:\n  prompt: test";
    let prompt = "Create a test note";
    let tool = "opencode";
    let model = "gpt-4o";

    let key1 = CacheKey::compute(scenario_yaml, prompt, tool, model);
    let key2 = CacheKey::compute(scenario_yaml, prompt, tool, model);

    assert_eq!(key1, key2);
}

#[test]
fn cache_key_hashes_are_sha256_hex() {
    // The digests of the empty string and of "abc" are fixed by SHA-256.
    let key = CacheKey::compute("", "abc", "tool", "model");
    assert_eq!(
        key.scenario_hash,
        "e3b0c44298fc1c149afbf4c8996fb92427ae41e4649b934ca495991b7852b855"
    );
    assert_eq!(
        key.prompt_hash,
        "ba7816bf8f01cfea414140de5dae2223b00361a396177a9cb410ff61f20015ad"
    );
}

#[test]
fn cache_key_string_sanitizes_model_separators() {
    let key = CacheKey::compute("y", "p", "tool", "org/model\\x");
    let s = key.as_string();
    assert!(s.ends_with("_tool_org_model_x"));
    assert!(!s.contains('/'));
    assert!(!s.contains('\\'));
}

#[test]
fn compute_cache_key_matches_compute() {
    let k1 = compute_cache_key("a", "b", "c", "d");
    let k2 = CacheKey::compute("a", "b", "c", "d");
    assert_eq!(k1, k2);
}
