//! Prompts to try a model on.
use crate::models::{messages_of, plain_message, Message, Role};
use vstd::prelude::*;

verus! {

/// What a prompt is about.
#[derive(Clone, Copy, Debug, PartialEq, Eq, Structural)]
pub enum PromptCategory {
    CodeGeneration,
    Debugging,
    Refactoring,
    Explanation,
    Architecture,
}

/// The name of a category.
pub open spec fn category_name(category: PromptCategory) -> Seq<char> {
    match category {
        PromptCategory::CodeGeneration => "code-gen"@,
        PromptCategory::Debugging => "debug"@,
        PromptCategory::Refactoring => "refactor"@,
        PromptCategory::Explanation => "explain"@,
        PromptCategory::Architecture => "architecture"@,
    }
}

impl PromptCategory {
    /// The name of this category.
    pub fn text(&self) -> (name: String)
        ensures
            name@ == category_name(*self),
    {
        match self {
            PromptCategory::CodeGeneration => "code-gen".to_owned(),
            PromptCategory::Debugging => "debug".to_owned(),
            PromptCategory::Refactoring => "refactor".to_owned(),
            PromptCategory::Explanation => "explain".to_owned(),
            PromptCategory::Architecture => "architecture".to_owned(),
        }
    }
}

/// A prompt to try a model on.
#[derive(Clone, Copy, Debug)]
pub struct TestPrompt {
    pub name: &'static str,
    pub system: &'static str,
    pub user: &'static str,
    pub category: PromptCategory,
    /// What the answer shows.
    pub description: &'static str,
}

/// A prompt as a value.
pub struct PromptView {
    pub name: Seq<char>,
    pub system: Seq<char>,
    pub user: Seq<char>,
    pub category: PromptCategory,
    pub description: Seq<char>,
}

impl View for TestPrompt {
    type V = PromptView;

    open spec fn view(&self) -> PromptView {
        PromptView {
            name: self.name@,
            system: self.system@,
            user: self.user@,
            category: self.category,
            description: self.description@,
        }
    }
}

/// Prompts as values.
pub open spec fn prompts_of(prompts: Seq<TestPrompt>) -> Seq<PromptView> {
    prompts.map_values(|p: TestPrompt| p@)
}

/// What `rust-parse-json` asks for.
pub const RUST_PARSE_JSON: &'static str = r#"Write a Rust function that:
1. Reads a JSON file at a given path
2. Parses it into a Vec<Record> where each Record has: id (u64), name (String), tags (Vec<String>)
3. Filters records where tags include "active"
4. Returns the filtered records sorted by id ascending

Include proper error handling with anyhow."#;

/// What `typescript-react-component` asks for.
pub const TYPESCRIPT_REACT_COMPONENT: &'static str = r#"Create a React component `DataTable<T>` that:
- Accepts columns definition and data array as props
- Supports sorting by clicking column headers
- Supports filtering by a text input
- Renders with proper TypeScript generics
- Uses CSS modules or inline styles (no external library)

Include the TypeScript types for Column<T>."#;

/// What `python-data-pipeline` asks for.
pub const PYTHON_DATA_PIPELINE: &'static str = r#"Write a Python class `DataPipeline` that:
1. Takes a list of CSV file paths on initialization
2. Has a method `extract()` that reads all CSVs into DataFrames
3. Has a method `transform()` that:
   - Removes duplicate rows
   - Fills NaN values with column means for numeric columns
   - Adds a `processed_at` timestamp column
4. Has a method `load(db_url: str)` that writes to a SQLite database
5. Has proper type hints and docstrings
6. Includes basic logging

Use pandas and sqlalchemy."#;

/// What `debug-memory-leak` asks for.
pub const DEBUG_MEMORY_LEAK: &'static str = r#"I have a Rust program that processes large files and seems to have a memory leak.
The code below reads a file line by line, but memory usage keeps growing.

```rust
use std::fs::File;
use std::io::{BufRead, BufReader};

fn process_file(path: &str) -> Vec<String> {
    let file = File::open(path).unwrap();
    let reader = BufReader::new(file);
    let mut results = Vec::new();
    
    for line in reader.lines() {
        let line = line.unwrap();
        let processed = line.trim().to_string();
        results.push(processed);
    }
    
    results
}
```

What's wrong and how would you fix it?"#;

/// What `debug-null-pointer` asks for.
pub const DEBUG_NULL_POINTER: &'static str = r#"This TypeScript function sometimes throws "Cannot read properties of null".
Can you find the bug and fix it?

```typescript
interface Config {
  database?: {
    host?: string;
    port?: number;
    credentials?: {
      username?: string;
      password?: string;
    };
  };
  cache?: {
    ttl?: number;
    provider?: string;
  };
}

function getConfigValue(config: Config, path: string): string {
  const parts = path.split('.');
  let current: any = config;
  
  for (const part of parts) {
    current = current[part];
  }
  
  return current;
}
```"#;

/// What `refactor-spaghetti` asks for.
pub const REFACTOR_SPAGHETTI: &'static str = r#"Refactor this Go function to be more readable, testable, and maintainable:

```go
func ProcessData(data []byte, t string) ([]byte, error) {
    var result []byte
    if t == "json" {
        var m map[string]interface{}
        json.Unmarshal(data, &m)
        if v, ok := m["name"]; ok {
            result = []byte(fmt.Sprintf("Name: %v", v))
        } else {
            result = []byte("Name: unknown")
        }
    } else if t == "csv" {
        r := csv.NewReader(strings.NewReader(string(data)))
        records, _ := r.ReadAll()
        if len(records) > 0 {
            result = []byte(fmt.Sprintf("Rows: %d", len(records)))
        } else {
            result = []byte("No data")
        }
    } else if t == "xml" {
        // similar XML handling...
        result = []byte("XML processed")
    } else {
        return nil, fmt.Errorf("unknown type: %s", t)
    }
    return result, nil
}
```"#;

/// What `explain-concurrency` asks for.
pub const EXPLAIN_CONCURRENCY: &'static str = r#"Explain the difference between these three concurrency patterns in Rust:
1. `tokio::spawn`
2. `std::thread::spawn` 
3. `rayon::par_iter`

When would you use each one? Give a concrete example for each."#;

/// What `design-microservice` asks for.
pub const DESIGN_MICROSERVICE: &'static str = r#"Design a simple URL shortening service.

Requirements:
- Create short URLs from long URLs
- Redirect from short URL to long URL
- Track visit counts per URL
- REST API

Please provide:
1. API endpoints design
2. Database schema
3. Key implementation details in Rust (using axum)
4. How you'd handle scaling"#;

/// All prompts.
pub open spec fn prompt_list() -> Seq<PromptView> {
    seq![
        PromptView {
            name: "rust-parse-json"@,
            system: "You are an expert Rust programmer."@,
            user: RUST_PARSE_JSON@,
            category: PromptCategory::CodeGeneration,
            description: "Checks code structure, error handling, and idiomatic Rust"@,
        },
        PromptView {
            name: "typescript-react-component"@,
            system: "You are a senior TypeScript/React developer."@,
            user: TYPESCRIPT_REACT_COMPONENT@,
            category: PromptCategory::CodeGeneration,
            description: "Checks TypeScript generics, React patterns, and completeness"@,
        },
        PromptView {
            name: "python-data-pipeline"@,
            system: "You are an expert Python developer focused on data engineering."@,
            user: PYTHON_DATA_PIPELINE@,
            category: PromptCategory::CodeGeneration,
            description: "Checks code organization, library usage, and completeness"@,
        },
        PromptView {
            name: "debug-memory-leak"@,
            system: "You are a systems programming expert."@,
            user: DEBUG_MEMORY_LEAK@,
            category: PromptCategory::Debugging,
            description: "Checks ability to identify memory issues and propose fixes"@,
        },
        PromptView {
            name: "debug-null-pointer"@,
            system: "You are a senior software engineer."@,
            user: DEBUG_NULL_POINTER@,
            category: PromptCategory::Debugging,
            description: "Checks defensive programming and null-safety awareness"@,
        },
        PromptView {
            name: "refactor-spaghetti"@,
            system: "You are a code quality expert."@,
            user: REFACTOR_SPAGHETTI@,
            category: PromptCategory::Refactoring,
            description: "Checks refactoring quality, pattern recognition, and code organization"@,
        },
        PromptView {
            name: "explain-concurrency"@,
            system: "You are a computer science educator."@,
            user: EXPLAIN_CONCURRENCY@,
            category: PromptCategory::Explanation,
            description: "Checks explanatory quality, accuracy, and example relevance"@,
        },
        PromptView {
            name: "design-microservice"@,
            system: "You are a software architect."@,
            user: DESIGN_MICROSERVICE@,
            category: PromptCategory::Architecture,
            description: "Checks architectural thinking, API design, and systems knowledge"@,
        },
    ]
}

/// All prompts.
pub fn all_prompts() -> (prompts: Vec<TestPrompt>)
    ensures
        prompts_of(prompts@) == prompt_list(),
{
    let prompts: Vec<TestPrompt> = vec![
        TestPrompt {
            name: "rust-parse-json",
            system: "You are an expert Rust programmer.",
            user: RUST_PARSE_JSON,
            category: PromptCategory::CodeGeneration,
            description: "Checks code structure, error handling, and idiomatic Rust",
        },
        TestPrompt {
            name: "typescript-react-component",
            system: "You are a senior TypeScript/React developer.",
            user: TYPESCRIPT_REACT_COMPONENT,
            category: PromptCategory::CodeGeneration,
            description: "Checks TypeScript generics, React patterns, and completeness",
        },
        TestPrompt {
            name: "python-data-pipeline",
            system: "You are an expert Python developer focused on data engineering.",
            user: PYTHON_DATA_PIPELINE,
            category: PromptCategory::CodeGeneration,
            description: "Checks code organization, library usage, and completeness",
        },
        TestPrompt {
            name: "debug-memory-leak",
            system: "You are a systems programming expert.",
            user: DEBUG_MEMORY_LEAK,
            category: PromptCategory::Debugging,
            description: "Checks ability to identify memory issues and propose fixes",
        },
        TestPrompt {
            name: "debug-null-pointer",
            system: "You are a senior software engineer.",
            user: DEBUG_NULL_POINTER,
            category: PromptCategory::Debugging,
            description: "Checks defensive programming and null-safety awareness",
        },
        TestPrompt {
            name: "refactor-spaghetti",
            system: "You are a code quality expert.",
            user: REFACTOR_SPAGHETTI,
            category: PromptCategory::Refactoring,
            description: "Checks refactoring quality, pattern recognition, and code organization",
        },
        TestPrompt {
            name: "explain-concurrency",
            system: "You are a computer science educator.",
            user: EXPLAIN_CONCURRENCY,
            category: PromptCategory::Explanation,
            description: "Checks explanatory quality, accuracy, and example relevance",
        },
        TestPrompt {
            name: "design-microservice",
            system: "You are a software architect.",
            user: DESIGN_MICROSERVICE,
            category: PromptCategory::Architecture,
            description: "Checks architectural thinking, API design, and systems knowledge",
        },
    ];
    assert(prompts_of(prompts@) =~= prompt_list());
    prompts
}

impl TestPrompt {
    /// The conversation that this prompt starts.
    pub fn to_messages(&self) -> (messages: Vec<Message>)
        ensures
            messages_of(messages@) == seq![
                plain_message(Role::System, self@.system),
                plain_message(Role::User, self@.user),
            ],
    {
        let messages: Vec<Message> = vec![
            Message::text(Role::System, self.system),
            Message::text(Role::User, self.user),
        ];
        assert(messages_of(messages@) =~= seq![
            plain_message(Role::System, self@.system),
            plain_message(Role::User, self@.user),
        ]);
        messages
    }
}

} // verus!
