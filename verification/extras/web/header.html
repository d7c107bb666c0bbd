<header class="navbar navbar-expand-md d-print-none bg-body border-bottom">
  <div class="container-fluid">
    <button class="navbar-toggler" type="button" data-bs-toggle="collapse" data-bs-target="#navbar-menu" aria-controls="navbar-menu" aria-expanded="false" aria-label="Toggle navigation">
      <span class="navbar-toggler-icon"></span>
    </button>
    <a class="navbar-brand" href="/"><img src="/assets/img/logo-horizontal-small.png" alt="CalStack"></a>
    <div class="navbar-nav flex-row order-md-last">
      <div class="nav-item me-2">
        <button type="button" id="theme-toggle" class="nav-link px-0" aria-label="Toggle dark mode" title="Toggle dark mode"><i class="bi bi-circle-half"></i></button>
      </div>
      <div class="nav-item dropdown">
        <a href="#" class="nav-link d-flex lh-1 p-0 px-2" data-bs-toggle="dropdown" aria-label="Open user menu" aria-expanded="false"><i class="bi bi-person-circle fs-3"></i></a>
        <div class="dropdown-menu dropdown-menu-end dropdown-menu-arrow">
          <button type="button" class="dropdown-item" id="account-btn">Account</button>
          <button type="button" class="dropdown-item" id="logout-btn">Sign out</button>
        </div>
      </div>
    </div>
  </div>
</header>
