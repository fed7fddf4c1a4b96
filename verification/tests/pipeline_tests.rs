use ovft_core::{Config, SourceFile, Tracer};

fn file(path: &str, content: &str) -> SourceFile {
    SourceFile { path: path.to_string(), content: content.to_string() }
}

fn project_sources() -> Vec<SourceFile> {
    vec![
        file(
            "project/src/lib.rs",
            r#"//! Open Very Fast Trace Library
//! [impl->feat~user-auth~1]

pub mod auth {
    /// Authentication module implementation
    /// [impl->dsn~auth-module~1]
    pub struct AuthService {
        // Implementation details
    }
    
    impl AuthService {
        /// Secure login implementation
        /// [impl->req~secure-login~1]
        pub fn login(&self, username: &str, password: &str) -> bool {
            // Secure login logic
            !username.is_empty() && !password.is_empty()
        }
        
        /// Session management
        /// [impl->req~session-mgmt~1]
        pub fn create_session(&self) -> String {
            "session_token".to_string()
        }
    }
}

/// Configuration management
/// [impl->req~config-loading~1]
pub struct Config {
    pub database_url: String,
}
"#,
        ),
        file(
            "project/src/auth_test.rs",
            r#"//! Authentication tests
//! [utest->req~secure-login~1]

#[cfg(test)]
mod tests {
    use super::*;
    
    /// Test secure login functionality
    /// [utest->req~secure-login~1]
    #[test]
    fn test_secure_login() {
        let auth = AuthService::new();
        assert!(auth.login("user", "pass"));
        assert!(!auth.login("", ""));
    }
    
    /// Test session management
    /// [utest->req~session-mgmt~1]
    #[test]
    fn test_session_creation() {
        let auth = AuthService::new();
        let session = auth.create_session();
        assert!(!session.is_empty());
    }
}
"#,
        ),
    ]
}

fn project_documents() -> Vec<SourceFile> {
    vec![
        file(
            "project/docs/requirements/features.md",
            r#"# Features

## feat~user-auth~1

**Title:** User Authentication System

**Description:** The system shall provide secure user authentication capabilities.

**Rationale:** Authentication is required for system security.

**Tags:** security, authentication

**Needs:** req, dsn
"#,
        ),
        file(
            "project/docs/requirements/requirements.md",
            r#"# Requirements

## req~secure-login~1

**Title:** Secure Login Process

**Description:** The system shall implement a secure login process that validates user credentials.

**Covers:** feat~user-auth~1

**Rationale:** Secure login prevents unauthorized access.

**Tags:** security, login

**Needs:** dsn, impl, utest

---

## req~session-mgmt~1

**Title:** Session Management

**Description:** The system shall manage user sessions securely.

**Covers:** feat~user-auth~1

**Rationale:** Session management is essential for maintaining user state.

**Tags:** security, session

**Needs:** dsn, impl, utest

---

## req~config-loading~1

**Title:** Configuration Loading

**Description:** The system shall load configuration from external sources.

**Covers:** feat~user-auth~1

**Rationale:** External configuration enables deployment flexibility.

**Tags:** configuration

**Needs:** impl
"#,
        ),
        file(
            "project/docs/requirements/design.md",
            r#"# Design Specifications

## dsn~auth-module~1

**Title:** Authentication Module Design

**Description:** The system shall implement an AuthService module that encapsulates all authentication logic.

**Covers:** feat~user-auth~1, req~secure-login~1, req~session-mgmt~1

**Rationale:** Modular design promotes maintainability and testability.

**Tags:** architecture, security

**Needs:** impl
"#,
        ),
    ]
}

#[test]
fn test_complete_requirements_tracing_pipeline() {
    let config = Config::empty()
        .add_source_dir("project/src")
        .add_spec_dir("project/docs/requirements");
    let tracer = Tracer::new(config).unwrap();
    let sources = project_sources();
    let documents = project_documents();
    for source in &sources {
        assert!(tracer.should_scan_file(&source.path));
    }
    for document in &documents {
        assert!(tracer.is_markdown_file(&document.path));
    }

    let trace_result = tracer.trace(&sources, &documents).expect("Tracing should succeed");

    assert!(trace_result.total_items >= 8, "Should find at least our test specification items");
    assert_eq!(trace_result.total_items, 13);
    assert_eq!(trace_result.defect_count, 0, "Should have no defects");
    assert!(trace_result.is_success, "Tracing should be successful");

    let item_ids: Vec<String> = trace_result
        .items
        .iter()
        .map(|item| item.item.id.to_string())
        .collect();

    assert!(item_ids.contains(&"feat~user-auth~1".to_string()));
    assert!(item_ids.contains(&"req~secure-login~1".to_string()));
    assert!(item_ids.contains(&"dsn~auth-module~1".to_string()));

    let feature = trace_result
        .items
        .iter()
        .find(|item| item.item.id.to_string() == "feat~user-auth~1")
        .unwrap();
    assert_eq!(feature.item.title, Some("feat~user-auth~1".to_string()));
    assert_eq!(feature.item.needs, vec!["req", "dsn"]);
    assert_eq!(feature.item.tags, vec!["security", "authentication"]);
    assert_eq!(feature.incoming_links.len(), 5);
    assert!(trace_result.defect_statistics_messages().is_empty());
}

#[test]
fn test_defect_detection() {
    let sources = vec![file(
        "project/src/lib.rs",
        r#"//! Library with defects
//! [impl->nonexistent~requirement~1]  // This will be orphaned

pub fn some_function() {
    // Implementation without proper coverage
}
"#,
    )];
    let documents = vec![file(
        "project/docs/requirements/requirements.md",
        r#"# Requirements

## req~uncovered-requirement~1

**Title:** Uncovered Requirement

**Description:** This requirement has no implementation.

**Rationale:** Testing defect detection.

**Tags:** testing

**Needs:** impl
"#,
    )];
    let tracer = Tracer::new(Config::empty()).unwrap();
    let trace_result = tracer.trace(&sources, &documents).expect("Tracing should succeed");

    assert!(trace_result.defect_count > 0, "Should detect defects in problematic project");
    assert!(!trace_result.is_success, "Tracing should report failure due to defects");
    assert_eq!(trace_result.defect_count, 2);
    assert_eq!(
        trace_result.defects[1].description,
        "Item req~uncovered-requirement~1 needs coverage by impl"
    );
    assert!(trace_result.defects[0]
        .description
        .ends_with("covers non-existing item nonexistent~requirement~1"));
    assert_eq!(
        trace_result.defect_statistics_messages(),
        vec!["1 item(s) need coverage by impl", "1 item(s) have orphaned coverage"]
    );
}

#[test]
fn test_error_handling() {
    let documents = vec![file(
        "project/docs/requirements/invalid.md",
        "# This is not a valid requirement\ninvalid~syntax~here\n",
    )];
    let tracer = Tracer::new(Config::empty()).unwrap();

    match tracer.trace(&Vec::new(), &documents) {
        Ok(result) => {
            assert_eq!(result.total_items, 0);
            assert!(result.is_success);
        }
        Err(err) => {
            let error_msg = format!("{:?}", err);
            assert!(!error_msg.is_empty(), "Error message should not be empty");
        }
    }
}
