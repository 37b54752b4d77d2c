use cforge::ollama_client::OllamaClient;

#[test]
fn ollama_client_test_ollama_client_creation() {
    let model = "gemma3:4b".to_string();
    let system_prompt = "You are a helpful assistant.".to_string();

    let client = OllamaClient::new(model.clone(), system_prompt.clone());

    assert_eq!(client.model_information.model, model);
    assert_eq!(client.system_prompt, system_prompt);
}

#[test]
fn ollama_client_test_update_system_prompt() {
    let model = "gemma3:4b".to_string();
    let initial_prompt = "Initial prompt".to_string();
    let new_prompt = "New system prompt".to_string();

    let mut client = OllamaClient::new(model, initial_prompt);
    client.update_system_prompt(new_prompt.clone());

    assert_eq!(client.system_prompt, new_prompt);
}

#[test]
fn test_parse_context_size() {
    // Test with the example output from the issue description
    let example_output = r#"  Model
architecture        gemma3    
parameters          4.3B      
context length      131072    
embedding length    2560      
quantization        Q4_K_M    

  Capabilities
completion    
vision        

  Parameters
stop           "<end_of_turn>"    
temperature    1                  
top_k          64                 
top_p          0.95               

  License
Gemma Terms of Use                  
Last modified: February 21, 2024    
..."#;

    let context_size = OllamaClient::parse_model_information(example_output, "").context_size;
    assert_eq!(context_size, Some(131072));
}

#[test]
fn test_parse_context_size_with_different_format() {
    // Test with a slightly different format
    let different_format = r#"Model
architecture: gemma3    
parameters: 4.3B      
context length: 131072    
embedding length: 2560"#;

    let context_size = OllamaClient::parse_model_information(different_format, "").context_size;
    assert_eq!(context_size, Some(131072));
}

#[test]
fn test_parse_context_size_not_found() {
    // Test with output that doesn't contain context length
    let no_context_length = r#"Model
architecture        gemma3    
parameters          4.3B      
embedding length    2560      
quantization        Q4_K_M"#;

    let context_size =
        OllamaClient::parse_model_information(no_context_length, "").context_size;
    assert_eq!(context_size, None);
}

#[test]
fn test_parse_context_size_invalid_format() {
    // Test with invalid format for context length
    let invalid_format = r#"Model
architecture        gemma3    
parameters          4.3B      
context length      invalid    
embedding length    2560"#;

    let context_size = OllamaClient::parse_model_information(invalid_format, "").context_size;
    assert_eq!(context_size, None);
}

#[test]
fn test_parse_tools_supported() {
    // Test with invalid format for context length
    let invalid_format = r#"Model
architecture        gemma3
parameters          4.3B
context length      invalid
embedding length    2560
  Capabilities
completion
tools
"#;

    let tools_supported =
        OllamaClient::parse_model_information(invalid_format, "").supports_tools;
    assert!(tools_supported);
}

#[test]
fn test_parse_tools_not_supported() {
    // Test with invalid format for context length
    let invalid_format = r#"Model
architecture        gemma3
parameters          4.3B
context length      invalid
embedding length    2560
  Capabilities
completion
"#;

    let tools_supported =
        OllamaClient::parse_model_information(invalid_format, "").supports_tools;
    assert!(!tools_supported);
}

#[test]
fn test_parse_tools_not_supported_alt_format() {
    // Test with invalid format for context length
    let invalid_format = r#"Model
architecture        gemma3
parameters          4.3B
context length      invalid
embedding length    2560
tools
  Capabilities
completion
"#;

    let tools_supported =
        OllamaClient::parse_model_information(invalid_format, "").supports_tools;
    assert!(!tools_supported);
}

#[test]
fn parse_context_size_with_plus_sign_and_crlf() {
    let output = "Model\r\n  context length   +4096\r\n";
    assert_eq!(OllamaClient::parse_model_information(output, "m").context_size, Some(4096));
}

#[test]
fn parse_context_size_too_few_words() {
    let output = "context length\ncontext 99";
    assert_eq!(OllamaClient::parse_model_information(output, "m").context_size, None);
}

#[test]
fn parse_context_size_overflow() {
    let output = "context length 99999999999999999999999999";
    assert_eq!(OllamaClient::parse_model_information(output, "m").context_size, None);
}

#[test]
fn parse_keeps_model_name() {
    assert_eq!(OllamaClient::parse_model_information("", "gemma3:4b").model, "gemma3:4b");
}

#[test]
fn ollama_api_url() {
    assert_eq!(OllamaClient::api_url(), "http://localhost:11434/api/chat");
}

#[test]
fn retry_only_after_bare_load() {
    assert!(OllamaClient::needs_retry(true, "load", ""));
    assert!(!OllamaClient::needs_retry(true, "load", "hello"));
    assert!(!OllamaClient::needs_retry(true, "stop", ""));
    assert!(!OllamaClient::needs_retry(false, "load", ""));
}
