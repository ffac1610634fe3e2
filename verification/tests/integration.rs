use design_patterns_agent::navigation::Navigator;
use design_patterns_agent::parser::module_graph::SourceFile;

const LIB_SOURCE: &str = r###"// Typestate Example: Demonstrates various invariant patterns
// that should be detected by the Design Patterns Agent

mod file_handle;
mod database;
mod resource;
mod builder;

pub use file_handle::{FileHandle, Closed, Open};
pub use database::{Connection, Disconnected, Connected};
pub use resource::Resource;
pub use builder::{Builder, BuilderEmpty, BuilderWithName, BuilderComplete};
"###;

const BUILDER_SOURCE: &str = r###"use std::marker::PhantomData;

/// State: Builder has no fields set
pub struct BuilderEmpty;

/// State: Builder has name set
pub struct BuilderWithName;

/// State: Builder has all required fields
pub struct BuilderComplete;

/// A configuration builder that uses typestate to ensure required fields are set
///
/// INVARIANT: A Config can only be built when all required fields are provided.
/// This is enforced at compile time through state transitions.
pub struct Builder<S> {
    name: Option<String>,
    description: Option<String>,
    timeout: Option<u64>,
    _state: PhantomData<S>,
}

impl Builder<BuilderEmpty> {
    /// Create a new empty builder
    pub fn new() -> Self {
        Builder {
            name: None,
            description: None,
            timeout: None,
            _state: PhantomData,
        }
    }

    /// Set the name (required field)
    ///
    /// INVARIANT: Name must be set before build() can be called.
    /// This transitions to BuilderWithName state.
    pub fn name(mut self, name: impl Into<String>) -> Builder<BuilderWithName> {
        self.name = Some(name.into());
        Builder {
            name: self.name,
            description: self.description,
            timeout: self.timeout,
            _state: PhantomData,
        }
    }
}

impl Builder<BuilderWithName> {
    /// Set the description (optional)
    pub fn description(mut self, description: impl Into<String>) -> Self {
        self.description = Some(description.into());
        self
    }

    /// Set the timeout (optional)
    pub fn timeout(mut self, timeout: u64) -> Self {
        self.timeout = Some(timeout);
        self
    }

    /// Mark as complete (all required fields set)
    ///
    /// INVARIANT: This transition is only available after name is set
    pub fn complete(self) -> Builder<BuilderComplete> {
        Builder {
            name: self.name,
            description: self.description,
            timeout: self.timeout,
            _state: PhantomData,
        }
    }
}

impl Builder<BuilderComplete> {
    /// Build the final configuration
    ///
    /// INVARIANT: Can only build when in BuilderComplete state,
    /// which guarantees all required fields are set.
    pub fn build(self) -> Config {
        Config {
            name: self.name.expect("Name should be set in BuilderComplete state"),
            description: self.description.unwrap_or_else(|| "No description".to_string()),
            timeout: self.timeout.unwrap_or(30),
        }
    }
}

impl Default for Builder<BuilderEmpty> {
    fn default() -> Self {
        Self::new()
    }
}

/// The final configuration object
pub struct Config {
    pub name: String,
    pub description: String,
    pub timeout: u64,
}

/// A token type used for capability-based access control
///
/// INVARIANT: Operations require specific capability tokens.
/// Tokens must be acquired in order and cannot be cloned.
#[must_use]
pub struct Token {
    level: u8,
}

impl Token {
    /// Create a level 1 token (entry level)
    pub fn level1() -> Self {
        println!("Creating level 1 token");
        Token { level: 1 }
    }

    /// Upgrade to level 2 (consumes level 1)
    ///
    /// ORDERING INVARIANT: Must have level 1 before getting level 2
    pub fn upgrade_to_level2(self) -> Token {
        assert_eq!(self.level, 1, "Must be level 1 to upgrade to level 2");
        println!("Upgrading to level 2");
        Token { level: 2 }
    }

    /// Upgrade to level 3 (consumes level 2)
    ///
    /// ORDERING INVARIANT: Must have level 2 before getting level 3
    pub fn upgrade_to_level3(self) -> Token {
        assert_eq!(self.level, 2, "Must be level 2 to upgrade to level 3");
        println!("Upgrading to level 3");
        Token { level: 3 }
    }

    /// Perform admin operation (requires level 3)
    ///
    /// INVARIANT: Admin operations require the highest level token
    pub fn admin_operation(self) {
        assert_eq!(self.level, 3, "Admin operation requires level 3 token");
        println!("Performing admin operation");
    }
}

#[cfg(test)]
mod tests {
    use super::*;

    #[test]
    fn test_builder_typestate() {
        let config = Builder::new()
            .name("MyConfig")
            .description("A test configuration")
            .timeout(60)
            .complete()
            .build();

        assert_eq!(config.name, "MyConfig");
        assert_eq!(config.timeout, 60);
    }

    #[test]
    fn test_token_ordering() {
        let token = Token::level1();
        let token = token.upgrade_to_level2();
        let token = token.upgrade_to_level3();
        token.admin_operation();
    }
}
"###;

const DATABASE_SOURCE: &str = r###"use std::marker::PhantomData;

/// State: Database connection is disconnected
pub struct Disconnected;

/// State: Database connection is active
pub struct Connected;

/// A database connection that uses typestate to ensure proper connection lifecycle.
///
/// INVARIANT: Queries can only be executed on a connected database.
/// INVARIANT: The connection must be established before use.
pub struct Connection<S> {
    connection_string: String,
    _state: PhantomData<S>,
}

impl Connection<Disconnected> {
    /// Create a new disconnected connection
    pub fn new(connection_string: impl Into<String>) -> Self {
        Connection {
            connection_string: connection_string.into(),
            _state: PhantomData,
        }
    }

    /// Connect to the database, consuming the disconnected connection
    /// and returning a connected one.
    ///
    /// INVARIANT: This state transition ensures connect() is only called once
    pub fn connect(self) -> Result<Connection<Connected>, String> {
        println!("Connecting to: {}", self.connection_string);

        if self.connection_string.is_empty() {
            return Err("Invalid connection string".to_string());
        }

        Ok(Connection {
            connection_string: self.connection_string,
            _state: PhantomData,
        })
    }
}

impl Connection<Connected> {
    /// Execute a query (only available when connected)
    ///
    /// INVARIANT: Queries require an active connection
    pub fn query(&self, sql: &str) -> Vec<String> {
        println!("Executing query: {}", sql);
        vec!["result1".to_string(), "result2".to_string()]
    }

    /// Begin a transaction (only available when connected)
    ///
    /// INVARIANT: Transactions require an active connection
    pub fn begin_transaction(&mut self) -> Transaction<'_> {
        println!("Beginning transaction");
        Transaction { conn: self }
    }

    /// Disconnect from the database
    pub fn disconnect(self) -> Connection<Disconnected> {
        println!("Disconnecting from: {}", self.connection_string);
        Connection {
            connection_string: self.connection_string,
            _state: PhantomData,
        }
    }
}

/// A transaction that must be committed or rolled back
///
/// INVARIANT: Transactions must be explicitly committed or rolled back
/// This is a linear type - it cannot be cloned and must be consumed
pub struct Transaction<'a> {
    conn: &'a mut Connection<Connected>,
}

impl<'a> Transaction<'a> {
    /// Commit the transaction, consuming it
    #[must_use]
    pub fn commit(self) {
        println!("Committing transaction");
    }

    /// Rollback the transaction, consuming it
    #[must_use]
    pub fn rollback(self) {
        println!("Rolling back transaction");
    }
}

#[cfg(test)]
mod tests {
    use super::*;

    #[test]
    fn test_connection_lifecycle() {
        let conn = Connection::new("localhost:5432");
        let conn = conn.connect().unwrap();
        let _results = conn.query("SELECT * FROM users");
        let _disconnected = conn.disconnect();
    }
}
"###;

const FILE_HANDLE_SOURCE: &str = r###"use std::marker::PhantomData;
use std::path::PathBuf;

/// State: File is closed
pub struct Closed;

/// State: File is open
pub struct Open;

/// A file handle that uses typestate to ensure files are opened before reading.
///
/// INVARIANT: Files must be in the Open state before they can be read or written to.
/// This is enforced at compile time using PhantomData.
pub struct FileHandle<S> {
    path: PathBuf,
    _state: PhantomData<S>,
}

impl FileHandle<Closed> {
    /// Create a new file handle in the Closed state
    pub fn new(path: PathBuf) -> Self {
        FileHandle {
            path,
            _state: PhantomData,
        }
    }

    /// Open the file, transitioning to the Open state
    ///
    /// This consumes self and returns a FileHandle<Open>,
    /// ensuring the file can only be opened once.
    pub fn open(self) -> FileHandle<Open> {
        println!("Opening file: {:?}", self.path);
        FileHandle {
            path: self.path,
            _state: PhantomData,
        }
    }
}

impl FileHandle<Open> {
    /// Read from the file (only available in Open state)
    ///
    /// INVARIANT: Can only be called on an open file handle
    pub fn read(&self) -> Vec<u8> {
        println!("Reading from file: {:?}", self.path);
        vec![1, 2, 3, 4]
    }

    /// Write to the file (only available in Open state)
    ///
    /// INVARIANT: Can only be called on an open file handle
    pub fn write(&mut self, data: &[u8]) {
        println!("Writing {} bytes to file: {:?}", data.len(), self.path);
    }

    /// Close the file, transitioning back to Closed state
    pub fn close(self) -> FileHandle<Closed> {
        println!("Closing file: {:?}", self.path);
        FileHandle {
            path: self.path,
            _state: PhantomData,
        }
    }
}

#[cfg(test)]
mod tests {
    use super::*;

    #[test]
    fn test_typestate_workflow() {
        let file = FileHandle::new(PathBuf::from("test.txt"));
        let mut file = file.open();
        file.write(b"hello");
        let _data = file.read();
        let _closed = file.close();
    }
}
"###;

const RESOURCE_SOURCE: &str = r###"/// A resource that must be explicitly cleaned up
///
/// INVARIANT: Resources must be released before being dropped.
/// This type uses Drop to ensure cleanup, making it a linear type.
/// The #[must_use] annotation ensures the resource isn't accidentally discarded.
#[must_use = "Resources must be properly released"]
pub struct Resource {
    id: usize,
    allocated: bool,
}

impl Resource {
    /// Allocate a new resource
    ///
    /// INVARIANT: Each resource has a unique ID and must be released
    pub fn allocate(id: usize) -> Self {
        println!("Allocating resource {}", id);
        Resource {
            id,
            allocated: true,
        }
    }

    /// Use the resource
    ///
    /// INVARIANT: Only allocated resources can be used
    pub fn use_resource(&mut self) {
        if !self.allocated {
            panic!("Attempting to use deallocated resource!");
        }
        println!("Using resource {}", self.id);
    }

    /// Explicitly release the resource
    ///
    /// ORDERING INVARIANT: release() must be called before drop
    pub fn release(mut self) {
        if self.allocated {
            println!("Releasing resource {}", self.id);
            self.allocated = false;
        }
        // self is dropped here, but allocated is now false
    }
}

impl Drop for Resource {
    /// Ensure the resource was properly released
    ///
    /// INVARIANT: Resources should be explicitly released before drop
    fn drop(&mut self) {
        if self.allocated {
            eprintln!("WARNING: Resource {} dropped without being released!", self.id);
            // Emergency cleanup
            println!("Emergency cleanup for resource {}", self.id);
        }
    }
}

/// A scoped resource guard that automatically releases on drop
///
/// INVARIANT: The resource is automatically released when the guard goes out of scope.
/// This is a linear type pattern using RAII.
pub struct ResourceGuard {
    resource: Resource,
}

impl ResourceGuard {
    /// Create a new resource guard
    pub fn new(id: usize) -> Self {
        ResourceGuard {
            resource: Resource::allocate(id),
        }
    }

    /// Access the underlying resource
    pub fn access(&mut self) -> &mut Resource {
        &mut self.resource
    }
}

impl Drop for ResourceGuard {
    fn drop(&mut self) {
        println!("ResourceGuard dropping, ensuring cleanup");
        if self.resource.allocated {
            self.resource.allocated = false;
            println!("Auto-releasing resource {}", self.resource.id);
        }
    }
}

#[cfg(test)]
mod tests {
    use super::*;

    #[test]
    fn test_explicit_release() {
        let mut resource = Resource::allocate(1);
        resource.use_resource();
        resource.release();
    }

    #[test]
    fn test_resource_guard() {
        let mut guard = ResourceGuard::new(2);
        guard.access().use_resource();
        // Guard automatically releases on drop
    }
}
"###;

/// The files of the typestate example project, under a project directory.
fn example_files() -> Vec<SourceFile> {
    let dir = "/work/test_projects/typestate_example/src";
    vec![
        SourceFile { path: format!("{}/lib.rs", dir), content: Ok(LIB_SOURCE.to_string()) },
        SourceFile { path: format!("{}/builder.rs", dir), content: Ok(BUILDER_SOURCE.to_string()) },
        SourceFile { path: format!("{}/database.rs", dir), content: Ok(DATABASE_SOURCE.to_string()) },
        SourceFile { path: format!("{}/file_handle.rs", dir), content: Ok(FILE_HANDLE_SOURCE.to_string()) },
        SourceFile { path: format!("{}/resource.rs", dir), content: Ok(RESOURCE_SOURCE.to_string()) },
    ]
}

#[test]
fn test_parse_typestate_example_project() {
    let navigator = Navigator::new("/work/test_projects/typestate_example/src/lib.rs", &example_files(), 10, 4000);
    match navigator {
        Ok(nav) => {
            let module_count = nav.module_count();
            println!("Found {} modules in test project", module_count);
            assert!(module_count > 0, "Should find at least one module");
            let mut explorer = nav.explore();
            let chunks = explorer.explore();
            println!("Found {} analysis chunks:", chunks.len());
            for chunk in &chunks {
                println!(
                    "  - module: {}, file: {}, structs: {}, fns: {}, impls: {}",
                    chunk.module_name,
                    chunk.file_path,
                    chunk.structs.len(),
                    chunk.functions.len(),
                    chunk.impl_blocks.len(),
                );
            }
            assert!(!chunks.is_empty(), "Should find at least one analysis chunk");
            for chunk in &chunks {
                assert!(!chunk.raw_source.is_empty(), "Chunk for {} should have raw source", chunk.module_name);
            }
        },
        Err(e) => {
            panic!("Failed to create navigator: {}", e);
        },
    }
}

#[test]
fn typestate_example_modules_and_chunks() {
    let nav = Navigator::new("/work/test_projects/typestate_example/src/lib.rs", &example_files(), 10, 4000).unwrap();
    assert_eq!(nav.module_count(), 5);
    assert!(nav.parse_failures().is_empty());
    let mut explorer = nav.explore();
    let chunks = explorer.explore();
    let names: Vec<&str> = chunks.iter().map(|c| c.module_name.as_str()).collect();
    assert!(names.contains(&"builder"));
    assert!(names.contains(&"resource"));
    assert!(chunks.iter().any(|c| c.structs.iter().any(|s| s.name == "Builder" && s.has_phantom_data)));
}
